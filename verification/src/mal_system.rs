//! The fat pointer as the BFT side builds it from commit certificates, and the
//! pure decisions of the BFT engine driver.

use vstd::prelude::*;
use crate::chain::Blake3Hash;
use crate::fat_pointer::{
    decode_fat_pointer, display_fat_pointer, encode_fat_pointer, parse_fat_pointer,
    FatPointerSignature, FatPointerToBftBlock,
};
use crate::serialization::{SerializationError, ZcashSerialize};
use crate::bytes::{append_bytes, copy_into_array};
use crate::crypto::{
    batch_queued, batch_verifier_new, batch_verifier_queue, batch_verifier_verify, ed25519_s_canonical,
    ed25519_verifies,
};
use crate::malctx::{
    decode_vote, encode_vote, law_vote_bytes_reencode, lemma_round_word_bits, vote_round_word, zero_hash, MalHeight, MalPublicKey2,
    MalRound, MalValueId, MalVote, NilOrVal, VoteType,
};
use vstd::bytes::{
    spec_u32_from_le_bytes, spec_u32_to_le_bytes, spec_u64_from_le_bytes, spec_u64_to_le_bytes,
};

verus! {

/// A vote signature for a block.
#[derive(Clone, Copy, Debug, PartialEq, Eq, PartialOrd, Ord)]
pub struct FatPointerSignature2 {
    pub public_key: [u8; 32],
    pub vote_signature: [u8; 64],
}

impl View for FatPointerSignature2 {
    type V = Seq<u8>;

    /// The 96 encoded bytes: the public key, then the signature.
    open spec fn view(&self) -> Seq<u8> {
        self.public_key@ + self.vote_signature@
    }
}

impl FatPointerSignature2 {
    /// The same signature as a `FatPointerSignature`.
    pub fn to_non_two(&self) -> (res: FatPointerSignature)
        ensures
            res@ == self@,
            res.public_key == self.public_key,
            res.vote_signature == self.vote_signature,
    {
        FatPointerSignature { public_key: self.public_key, vote_signature: self.vote_signature }
    }

    /// The same signature from a `FatPointerSignature`.
    pub fn from_non_two(sig: &FatPointerSignature) -> (res: FatPointerSignature2)
        ensures
            res@ == sig@,
            res.public_key == sig.public_key,
            res.vote_signature == sig.vote_signature,
    {
        FatPointerSignature2 { public_key: sig.public_key, vote_signature: sig.vote_signature }
    }

    /// Convert the signature to a fixed size byte array.
    pub fn to_bytes(&self) -> (res: [u8; 96])
        ensures
            res@ == self@,
    {
        self.to_non_two().to_bytes()
    }

    /// Convert a fixed size array of bytes into a signature.
    pub fn from_bytes(bytes: &[u8; 96]) -> (res: FatPointerSignature2)
        ensures
            res@ == bytes@,
    {
        FatPointerSignature2::from_non_two(&FatPointerSignature::from_bytes(bytes))
    }
}

/// A bundle of signed votes for a block.
#[derive(Clone, Debug, PartialEq, Eq, PartialOrd, Ord)]
pub struct FatPointerToBftBlock2 {
    pub vote_for_block_without_finalizer_public_key: [u8; 44],
    pub signatures: Vec<FatPointerSignature2>,
}

impl View for FatPointerToBftBlock2 {
    type V = (Seq<u8>, Seq<Seq<u8>>);

    /// The vote bytes and the encoded bytes of each signature, in order.
    open spec fn view(&self) -> (Seq<u8>, Seq<Seq<u8>>) {
        (
            self.vote_for_block_without_finalizer_public_key@,
            self.signatures@.map_values(|s: FatPointerSignature2| s@),
        )
    }
}

impl FatPointerToBftBlock2 {
    /// Whether the signature count fits its 16-bit field.
    pub open spec fn wf(&self) -> bool {
        self.signatures@.len() < 0x1_0000
    }

    /// A copy as the header-side fat pointer type, without consuming `self`.
    pub fn as_non_two(&self) -> (res: FatPointerToBftBlock)
        ensures
            res@ == self@,
            res.signatures@.len() == self.signatures@.len(),
            forall|i: int|
                0 <= i < self.signatures@.len() ==> (#[trigger] res.signatures@[i]).public_key
                    == self.signatures@[i].public_key && res.signatures@[i].vote_signature
                    == self.signatures@[i].vote_signature,
    {
        let mut signatures: Vec<FatPointerSignature> = Vec::new();
        let mut i: usize = 0;
        while i < self.signatures.len()
            invariant
                i <= self.signatures@.len(),
                signatures@.len() == i,
                forall|j: int|
                    0 <= j < i ==> (#[trigger] signatures@[j]).public_key
                        == self.signatures@[j].public_key && signatures@[j].vote_signature
                        == self.signatures@[j].vote_signature,
            decreases self.signatures@.len() - i,
        {
            signatures.push(self.signatures[i].to_non_two());
            i = i + 1;
        }
        let res = FatPointerToBftBlock {
            vote_for_block_without_finalizer_public_key: self.vote_for_block_without_finalizer_public_key,
            signatures,
        };
        assert(res@.1 =~= self@.1);
        res
    }

    /// Converts into the header-side fat pointer type.
    pub fn to_non_two(self) -> (res: FatPointerToBftBlock)
        ensures
            res@ == self@,
            res.vote_for_block_without_finalizer_public_key
                == self.vote_for_block_without_finalizer_public_key,
            res.signatures@.len() == self.signatures@.len(),
            forall|i: int|
                0 <= i < self.signatures@.len() ==> (#[trigger] res.signatures@[i]).public_key
                    == self.signatures@[i].public_key && res.signatures@[i].vote_signature
                    == self.signatures@[i].vote_signature,
    {
        self.as_non_two()
    }

    /// Converts from the header-side fat pointer type.
    pub fn from_non_two(fp: &FatPointerToBftBlock) -> (res: FatPointerToBftBlock2)
        ensures
            res@ == fp@,
    {
        let mut signatures: Vec<FatPointerSignature2> = Vec::new();
        let mut i: usize = 0;
        while i < fp.signatures.len()
            invariant
                i <= fp.signatures@.len(),
                signatures@.len() == i,
                forall|j: int| 0 <= j < i ==> (#[trigger] signatures@[j])@ == fp.signatures@[j]@,
            decreases fp.signatures@.len() - i,
        {
            signatures.push(FatPointerSignature2::from_non_two(&fp.signatures[i]));
            i = i + 1;
        }
        let res = FatPointerToBftBlock2 {
            vote_for_block_without_finalizer_public_key: fp.vote_for_block_without_finalizer_public_key,
            signatures,
        };
        assert(res@.1 =~= fp@.1);
        res
    }

    /// Shorthand for an all null bytes and zero signature count fat pointer.
    pub fn null() -> (res: FatPointerToBftBlock2)
        ensures
            res@.0 == Seq::new(44, |i: int| 0u8),
            res@.1 == Seq::<Seq<u8>>::empty(),
    {
        let res = FatPointerToBftBlock2 {
            vote_for_block_without_finalizer_public_key: [0u8; 44],
            signatures: Vec::new(),
        };
        assert(res@.0 =~= Seq::new(44, |i: int| 0u8));
        assert(res@.1 =~= Seq::<Seq<u8>>::empty());
        res
    }

    /// Serialize this fat pointer into a dynamically sized byte array.
    pub fn to_bytes(&self) -> (res: Vec<u8>)
        ensures
            res@ == encode_fat_pointer(self@),
    {
        self.as_non_two().to_bytes()
    }

    /// Try to deserialize a fat pointer from the provided dynamic array of bytes.
    pub fn try_from_bytes(bytes: &Vec<u8>) -> (res: Option<FatPointerToBftBlock2>)
        ensures
            match res {
                None => decode_fat_pointer(bytes@) is None,
                Some(fp) => decode_fat_pointer(bytes@) == Some(fp@),
            },
    {
        match FatPointerToBftBlock::try_from_bytes(bytes) {
            None => None,
            Some(fp) => Some(FatPointerToBftBlock2::from_non_two(&fp)),
        }
    }

    /// The hash of the BFT block this fat pointer points to: the first 32 vote bytes.
    pub fn points_at_block_hash(&self) -> (res: Blake3Hash)
        ensures
            res.0@ == self@.0.subrange(0, 32),
    {
        let mut hash = [0u8; 32];
        crate::bytes::copy_into_array(
            &mut hash,
            self.vote_for_block_without_finalizer_public_key.as_slice(),
            0,
        );
        Blake3Hash(hash)
    }

    /// Writes this fat pointer to a byte stream: the same bytes as `to_bytes`.
    pub fn zcash_serialize(&self, writer: &mut Vec<u8>)
        ensures
            final(writer)@ == old(writer)@ + encode_fat_pointer(self@),
    {
        self.as_non_two().zcash_serialize(writer)
    }

    /// Reads a fat pointer from `bytes` starting at `pos`; returns it and the
    /// position just after it.
    pub fn zcash_deserialize(bytes: &[u8], pos: usize) -> (res: Result<
        (FatPointerToBftBlock2, usize),
        SerializationError,
    >)
        requires
            pos <= bytes@.len(),
        ensures
            match parse_fat_pointer(bytes@.skip(pos as int)) {
                None => res == Err::<(FatPointerToBftBlock2, usize), _>(
                    SerializationError::UnexpectedEnd,
                ),
                Some((v, n)) => res matches Ok((fp, end)) && fp@ == v && end == pos + n,
            },
            res matches Ok((_, end)) ==> pos <= end <= bytes@.len(),
    {
        match FatPointerToBftBlock::zcash_deserialize(bytes, pos) {
            Ok((fp, end)) => Ok((FatPointerToBftBlock2::from_non_two(&fp), end)),
            Err(e) => Err(e),
        }
    }

    /// The display text of this fat pointer (see `display_fat_pointer`).
    pub fn to_display_string(&self) -> (res: String)
        ensures
            res@ == display_fat_pointer(self@),
    {
        self.as_non_two().to_display_string()
    }
}


/// One finalizer's commit: its address and its signature of the precommit.
#[derive(Clone, Copy, Debug, PartialEq, Eq)]
pub struct MalCommitSignature {
    pub address: MalPublicKey2,
    pub signature: [u8; 64],
}

/// The certificate that a value was decided at a height and round.
#[derive(Clone, Debug, PartialEq, Eq)]
pub struct MalCommitCertificate {
    pub height: MalHeight,
    pub round: MalRound,
    pub value_id: MalValueId,
    pub commit_signatures: Vec<MalCommitSignature>,
}

/// The layout of the precommit every signer of a certificate signed, with a
/// zero address: a precommit for the certificate's value at its height and round.
pub open spec fn certificate_vote_bytes(c: MalCommitCertificate) -> Seq<u8> {
    zero_hash() + c.value_id.0.0@ + spec_u64_to_le_bytes(c.height@) + spec_u32_to_le_bytes(
        vote_round_word(
            match c.round {
                MalRound::Nil => 0,
                MalRound::Number(r) => r,
            },
            VoteType::Precommit,
        ),
    )
}

/// The bytes of the precommit that the finalizer with key `public_key`
/// signed, as recorded in a fat pointer with shared vote bytes `vote`.
pub open spec fn signed_vote_message(public_key: Seq<u8>, vote: Seq<u8>) -> Seq<u8> {
    public_key + vote
}

/// Whether `fp` is the fat pointer of certificate `c`: the certificate's
/// precommit layout without its address, and each commit signature in order.
pub open spec fn is_certificate_fat_pointer(fp: FatPointerToBftBlock2, c: MalCommitCertificate) -> bool {
    &&& fp@.0 == certificate_vote_bytes(c).subrange(32, 76)
    &&& fp.signatures@.len() == c.commit_signatures@.len()
    &&& forall|i: int|
        0 <= i < fp.signatures@.len() ==> (#[trigger] fp.signatures@[i]).public_key
            == c.commit_signatures@[i].address.0 && fp.signatures@[i].vote_signature
            == c.commit_signatures@[i].signature
}

/// Law: what each signer of a certificate is checked against is exactly
/// the 76-byte layout of its own precommit for the certificate's value, at
/// the certificate's height and round.
pub proof fn law_certificate_signed_message_is_precommit(c: MalCommitCertificate, v: MalVote)
    requires
        v.value == NilOrVal::Val(c.value_id),
        v.height == c.height,
        v.round == c.round,
        v.typ == VoteType::Precommit,
    ensures
        signed_vote_message(v.validator_address.0@, certificate_vote_bytes(c).subrange(32, 76))
            == encode_vote(v),
{
    vstd::bytes::lemma_auto_spec_u64_to_from_le_bytes();
    vstd::bytes::lemma_auto_spec_u32_to_from_le_bytes();
    let z = zero_hash();
    let tail = c.value_id.0.0@ + spec_u64_to_le_bytes(c.height@) + spec_u32_to_le_bytes(
        vote_round_word(
            match c.round {
                MalRound::Nil => 0,
                MalRound::Number(r) => r,
            },
            VoteType::Precommit,
        ),
    );
    assert(certificate_vote_bytes(c) =~= z + tail);
    let rest = certificate_vote_bytes(c).subrange(32, 76);
    assert(rest =~= tail);
    assert(encode_vote(v) =~= v.validator_address.0@ + tail);
}

/// Whether every commit signature of `c` verifies on the precommit its
/// signer signed.
pub open spec fn certificate_signatures_verify(c: MalCommitCertificate) -> bool {
    forall|i: int|
        0 <= i < c.commit_signatures@.len() ==> ed25519_verifies(
            (#[trigger] c.commit_signatures@[i]).address.0@,
            c.commit_signatures@[i].signature@,
            signed_vote_message(
                c.commit_signatures@[i].address.0@,
                certificate_vote_bytes(c).subrange(32, 76),
            ),
        )
}

/// Whether some commit signature of `c` has an `s` half not below `l`.
pub open spec fn certificate_has_noncanonical_signature(c: MalCommitCertificate) -> bool {
    exists|i: int|
        0 <= i < c.commit_signatures@.len() && !ed25519_s_canonical(
            (#[trigger] c.commit_signatures@[i]).signature@,
        )
}

impl FatPointerToBftBlock2 {
    /// The fat pointer for a commit certificate: the precommit layout without
    /// its address, and each commit signature.
    pub fn from_certificate(certificate: &MalCommitCertificate) -> (res: FatPointerToBftBlock2)
        requires
            certificate.round is Number,
        ensures
            res@.0 == certificate_vote_bytes(*certificate).subrange(32, 76),
            res.signatures@.len() == certificate.commit_signatures@.len(),
            forall|i: int|
                0 <= i < res.signatures@.len() ==> (#[trigger] res.signatures@[i]).public_key
                    == certificate.commit_signatures@[i].address.0 && res.signatures@[i].vote_signature
                    == certificate.commit_signatures@[i].signature,
            is_certificate_fat_pointer(res, *certificate),
    {
        let zero_key = [0u8; 32];
        assert(zero_key@ =~= zero_hash());
        let vote_template = MalVote {
            validator_address: MalPublicKey2(zero_key),
            value: NilOrVal::Val(certificate.value_id),
            height: certificate.height,
            typ: VoteType::Precommit,
            round: certificate.round,
        };
        let vote_bytes = vote_template.to_bytes();
        assert(vote_bytes@ =~= certificate_vote_bytes(*certificate));
        let mut vote_for_block_without_finalizer_public_key = [0u8; 44];
        copy_into_array(&mut vote_for_block_without_finalizer_public_key, vote_bytes.as_slice(), 32);
        let mut signatures: Vec<FatPointerSignature2> = Vec::new();
        let mut i: usize = 0;
        while i < certificate.commit_signatures.len()
            invariant
                i <= certificate.commit_signatures@.len(),
                signatures@.len() == i,
                forall|j: int|
                    0 <= j < i ==> (#[trigger] signatures@[j]).public_key
                        == certificate.commit_signatures@[j].address.0 && signatures@[j].vote_signature
                        == certificate.commit_signatures@[j].signature,
            decreases certificate.commit_signatures@.len() - i,
        {
            let commit_signature = certificate.commit_signatures[i];
            signatures.push(
                FatPointerSignature2 {
                    public_key: commit_signature.address.0,
                    vote_signature: commit_signature.signature,
                },
            );
            i = i + 1;
        }
        FatPointerToBftBlock2 { vote_for_block_without_finalizer_public_key, signatures }
    }

    /// The vote every signer signed, read back with a zero address.
    pub fn get_vote_template(&self) -> (res: MalVote)
        ensures
            res@ == decode_vote(Seq::new(32, |i: int| 0u8) + self@.0),
    {
        let mut vote_bytes = [0u8; 76];
        let mut i: usize = 0;
        while i < 44
            invariant
                i <= 44,
                vote_bytes@.len() == 76,
                forall|j: int| 0 <= j < 32 ==> vote_bytes@[j] == 0,
                forall|j: int| 32 <= j < 32 + i ==> vote_bytes@[j] == self@.0[j - 32],
            decreases 44 - i,
        {
            vote_bytes[32 + i] = self.vote_for_block_without_finalizer_public_key[i];
            i = i + 1;
        }
        assert(vote_bytes@ =~= Seq::new(32, |i: int| 0u8) + self@.0);
        MalVote::from_bytes(&vote_bytes)
    }

    /// Each signature with the vote it signs: the template with the signer's address.
    pub fn inflate(&self) -> (res: Vec<(MalVote, [u8; 64])>)
        ensures
            res@.len() == self.signatures@.len(),
            forall|i: int|
                0 <= i < res@.len() ==> {
                    let (vote, sig) = #[trigger] res@[i];
                    &&& vote@ == decode_vote(self.signatures@[i].public_key@ + self@.0)
                    &&& sig == self.signatures@[i].vote_signature
                },
    {
        let template = self.get_vote_template();
        let mut out: Vec<(MalVote, [u8; 64])> = Vec::new();
        let mut i: usize = 0;
        while i < self.signatures.len()
            invariant
                i <= self.signatures@.len(),
                template@ == decode_vote(Seq::new(32, |i: int| 0u8) + self@.0),
                out@.len() == i,
                forall|j: int|
                    0 <= j < i ==> {
                        let (vote, sig) = #[trigger] out@[j];
                        &&& vote@ == decode_vote(self.signatures@[j].public_key@ + self@.0)
                        &&& sig == self.signatures@[j].vote_signature
                    },
            decreases self.signatures@.len() - i,
        {
            let s = self.signatures[i];
            let mut vote = template;
            vote.validator_address = MalPublicKey2(s.public_key);
            proof {
                let a = Seq::new(32, |i: int| 0u8) + self@.0;
                let b = s.public_key@ + self@.0;
                assert(a.subrange(32, 64) =~= b.subrange(32, 64));
                assert(a.subrange(64, 72) =~= b.subrange(64, 72));
                assert(a.subrange(72, 76) =~= b.subrange(72, 76));
                assert(b.subrange(0, 32) =~= s.public_key@);
            }
            out.push((vote, s.vote_signature));
            i = i + 1;
        }
        out
    }

    /// Whether every signature verifies on the precommit its signer signed,
    /// checked as one batch. Each signer's message is its public key followed by
    /// the shared vote bytes.
    pub fn validate_signatures(&self) -> (res: bool)
        ensures
            (forall|i: int|
                0 <= i < self.signatures@.len() ==> ed25519_verifies(
                    (#[trigger] self.signatures@[i]).public_key@,
                    self.signatures@[i].vote_signature@,
                    signed_vote_message(self.signatures@[i].public_key@, self@.0),
                )) ==> res,
            (exists|i: int|
                0 <= i < self.signatures@.len() && !ed25519_s_canonical(
                    (#[trigger] self.signatures@[i]).vote_signature@,
                )) ==> !res,
    {
        let votes = self.inflate();
        let mut batch = batch_verifier_new();
        let mut i: usize = 0;
        while i < votes.len()
            invariant
                i <= votes@.len(),
                votes@.len() == self.signatures@.len(),
                forall|j: int|
                    0 <= j < votes@.len() ==> {
                        let (vote, sig) = #[trigger] votes@[j];
                        &&& vote@ == decode_vote(self.signatures@[j].public_key@ + self@.0)
                        &&& sig == self.signatures@[j].vote_signature
                    },
                forall|item: (Seq<u8>, Seq<u8>, Seq<u8>)|
                    #[trigger] batch_queued(batch).contains(item) ==> exists|j: int|
                        0 <= j < i && item == (
                            self.signatures@[j].public_key@,
                            self.signatures@[j].vote_signature@,
                            signed_vote_message(self.signatures@[j].public_key@, self@.0),
                        ),
                forall|j: int|
                    0 <= j < i ==> batch_queued(batch).contains(
                        (
                            (#[trigger] self.signatures@[j]).public_key@,
                            self.signatures@[j].vote_signature@,
                            signed_vote_message(self.signatures@[j].public_key@, self@.0),
                        ),
                    ),
            decreases votes@.len() - i,
        {
            let (vote, signature) = votes[i];
            proof {
                let b = self.signatures@[i as int].public_key@ + self@.0;
                law_vote_bytes_reencode(b, vote);
                assert(vote.validator_address.0@ == self.signatures@[i as int].public_key@) by {
                    assert(b.subrange(0, 32) =~= self.signatures@[i as int].public_key@);
                }
                assert(vote.validator_address.0 =~= self.signatures@[i as int].public_key);
            }
            let message = vote.to_bytes();
            let ghost old_batch = batch;
            batch_verifier_queue(&mut batch, &vote.validator_address.0, &signature, message.as_slice());
            proof {
                let item_i = (
                    self.signatures@[i as int].public_key@,
                    self.signatures@[i as int].vote_signature@,
                    signed_vote_message(self.signatures@[i as int].public_key@, self@.0),
                );
                assert forall|item: (Seq<u8>, Seq<u8>, Seq<u8>)|
                    #[trigger] batch_queued(batch).contains(item) implies exists|j: int|
                        0 <= j < i + 1 && item == (
                            self.signatures@[j].public_key@,
                            self.signatures@[j].vote_signature@,
                            signed_vote_message(self.signatures@[j].public_key@, self@.0),
                        ) by {
                    if item == item_i {
                    } else {
                        assert(batch_queued(old_batch).contains(item));
                    }
                }
            }
            proof {
                broadcast use vstd::multiset::group_multiset_axioms;

                assert forall|j: int| 0 <= j < i + 1 implies batch_queued(batch).contains(
                    (
                        (#[trigger] self.signatures@[j]).public_key@,
                        self.signatures@[j].vote_signature@,
                        signed_vote_message(self.signatures@[j].public_key@, self@.0),
                    ),
                ) by {
                    if j < i {
                        assert(batch_queued(old_batch).contains(
                            (
                                self.signatures@[j].public_key@,
                                self.signatures@[j].vote_signature@,
                                signed_vote_message(self.signatures@[j].public_key@, self@.0),
                            ),
                        ));
                    }
                }
            }
            i = i + 1;
        }
        proof {
            if exists|k: int|
                0 <= k < self.signatures@.len() && !ed25519_s_canonical(
                    (#[trigger] self.signatures@[k]).vote_signature@,
                ) {
                let k = choose|k: int|
                    0 <= k < self.signatures@.len() && !ed25519_s_canonical(
                        (#[trigger] self.signatures@[k]).vote_signature@,
                    );
                let item = (
                    self.signatures@[k].public_key@,
                    self.signatures@[k].vote_signature@,
                    signed_vote_message(self.signatures@[k].public_key@, self@.0),
                );
                assert(batch_queued(batch).contains(item));
            }
        }
        batch_verifier_verify(batch)
    }
}

/// The commit certificate a fat pointer records: height and round from its
/// vote template, the pointed-at hash as the value, and its signatures.
pub fn certificate_from_fat_pointer(fat_pointer: &FatPointerToBftBlock2) -> (res: MalCommitCertificate)
    ensures
        res.height@ == decode_vote(Seq::new(32, |i: int| 0u8) + fat_pointer@.0).2,
        res.round == decode_vote(Seq::new(32, |i: int| 0u8) + fat_pointer@.0).4,
        res.value_id.0.0@ == fat_pointer@.0.subrange(0, 32),
        res.commit_signatures@.len() == fat_pointer.signatures@.len(),
        forall|i: int|
            0 <= i < res.commit_signatures@.len() ==> (#[trigger] res.commit_signatures@[i]).address.0
                == fat_pointer.signatures@[i].public_key && res.commit_signatures@[i].signature
                == fat_pointer.signatures@[i].vote_signature,
{
    let vote_template = fat_pointer.get_vote_template();
    let mut commit_signatures: Vec<MalCommitSignature> = Vec::new();
    let mut i: usize = 0;
    while i < fat_pointer.signatures.len()
        invariant
            i <= fat_pointer.signatures@.len(),
            commit_signatures@.len() == i,
            forall|j: int|
                0 <= j < i ==> (#[trigger] commit_signatures@[j]).address.0
                    == fat_pointer.signatures@[j].public_key && commit_signatures@[j].signature
                    == fat_pointer.signatures@[j].vote_signature,
        decreases fat_pointer.signatures@.len() - i,
    {
        let sig = fat_pointer.signatures[i];
        commit_signatures.push(
            MalCommitSignature { address: MalPublicKey2(sig.public_key), signature: sig.vote_signature },
        );
        i = i + 1;
    }
    MalCommitCertificate {
        height: vote_template.height,
        round: vote_template.round,
        value_id: MalValueId(fat_pointer.points_at_block_hash()),
        commit_signatures,
    }
}

/// Law: the fat pointer built from a commit certificate points at the
/// certificate's value.
pub proof fn law_certificate_fat_pointer_points_at_value(
    certificate: MalCommitCertificate,
    fat_pointer: FatPointerToBftBlock2,
)
    requires
        certificate.round is Number,
        fat_pointer@.0 == certificate_vote_bytes(certificate).subrange(32, 76),
    ensures
        fat_pointer@.0.subrange(0, 32) == certificate.value_id.0.0@,
{
    vstd::bytes::lemma_auto_spec_u64_to_from_le_bytes();
    vstd::bytes::lemma_auto_spec_u32_to_from_le_bytes();
    let b = certificate_vote_bytes(certificate);
    assert(b.subrange(32, 76).subrange(0, 32) =~= b.subrange(32, 64));
    assert(b.subrange(32, 64) =~= certificate.value_id.0.0@);
}


/// Law: rebuilding a fat pointer from the commit certificate it records gives
/// the same fat pointer, when its vote template is a precommit (the only kind
/// of vote a certificate stands for).
pub proof fn law_fat_pointer_certificate_roundtrip(
    fat_pointer: FatPointerToBftBlock2,
    certificate: MalCommitCertificate,
    rebuilt: FatPointerToBftBlock2,
)
    requires
        decode_vote(Seq::new(32, |i: int| 0u8) + fat_pointer@.0).3 == VoteType::Precommit,
        certificate.height@ == decode_vote(Seq::new(32, |i: int| 0u8) + fat_pointer@.0).2,
        certificate.round == decode_vote(Seq::new(32, |i: int| 0u8) + fat_pointer@.0).4,
        certificate.value_id.0.0@ == fat_pointer@.0.subrange(0, 32),
        certificate.commit_signatures@.len() == fat_pointer.signatures@.len(),
        forall|i: int|
            0 <= i < certificate.commit_signatures@.len() ==> (
            #[trigger] certificate.commit_signatures@[i]).address.0
                == fat_pointer.signatures@[i].public_key
                && certificate.commit_signatures@[i].signature
                == fat_pointer.signatures@[i].vote_signature,
        rebuilt@.0 == certificate_vote_bytes(certificate).subrange(32, 76),
        rebuilt.signatures@.len() == certificate.commit_signatures@.len(),
        forall|i: int|
            0 <= i < rebuilt.signatures@.len() ==> (#[trigger] rebuilt.signatures@[i]).public_key
                == certificate.commit_signatures@[i].address.0
                && rebuilt.signatures@[i].vote_signature
                == certificate.commit_signatures@[i].signature,
    ensures
        rebuilt@ == fat_pointer@,
{
    vstd::bytes::lemma_auto_spec_u64_to_from_le_bytes();
    vstd::bytes::lemma_auto_spec_u32_to_from_le_bytes();
    lemma_round_word_bits();
    let v = fat_pointer@.0;
    let b = Seq::new(32, |i: int| 0u8) + v;
    assert(b.subrange(64, 72) =~= v.subrange(32, 40));
    assert(b.subrange(72, 76) =~= v.subrange(40, 44));
    let m = spec_u32_from_le_bytes(v.subrange(40, 44));
    assert(m & 0x8000_0000 != 0);
    assert(vote_round_word(m & 0x7fff_ffff, VoteType::Precommit) == m);
    assert(spec_u64_to_le_bytes(spec_u64_from_le_bytes(v.subrange(32, 40))) == v.subrange(32, 40));
    assert(spec_u32_to_le_bytes(m) == v.subrange(40, 44));
    let c = certificate_vote_bytes(certificate);
    assert(c.subrange(32, 76) =~= v.subrange(0, 32) + v.subrange(32, 40) + v.subrange(40, 44));
    assert(v.subrange(0, 32) + v.subrange(32, 40) + v.subrange(40, 44) =~= v);
    assert forall|i: int| 0 <= i < rebuilt.signatures@.len() implies (#[trigger] rebuilt.signatures@[i])@
        == fat_pointer.signatures@[i]@ by {}
    assert(rebuilt@.1 =~= fat_pointer@.1);
}
impl ZcashSerialize for FatPointerToBftBlock2 {
    open spec fn serializable(&self) -> bool {
        true
    }

    open spec fn zcash_bytes(&self) -> Seq<u8> {
        encode_fat_pointer(self@)
    }

    fn zcash_serialize_into(&self, writer: &mut Vec<u8>) {
        self.zcash_serialize(writer);
    }
}

} // verus!
