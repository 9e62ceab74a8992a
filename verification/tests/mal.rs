use zebra_crosslink::chain::{BftBlock, Blake3Hash, ZcashCrosslinkParameters};
use zebra_crosslink::mal_driver::{
    extend_vote, msg_flag_bit, proposal_signature_valid, stream_id, stream_proposal,
    verify_vote_extension, BFTMsgFlag, DecidedError, GetValueDecision, MalValidity,
    MalVoteExtensionError, MalachiteDriver, ProposalPartDecision, RunningMalachite, StreamContent,
};
use zebra_crosslink::mal_system::{
    certificate_from_fat_pointer, FatPointerToBftBlock2, MalCommitCertificate, MalCommitSignature,
};
use zebra_crosslink::malctx::{
    MalContext, MalEd25519Provider, MalHeight, MalPublicKey2, MalRound, MalValidator,
    MalValidatorSet, MalValue, MalValueId, MalVote, NilOrVal, VoteType,
};

fn public_key(seed: [u8; 32]) -> [u8; 32] {
    let sk = ed25519_zebra::SigningKey::from(seed);
    ed25519_zebra::VerificationKey::from(&sk).into()
}

fn empty_block() -> BftBlock {
    let params = ZcashCrosslinkParameters { bc_confirmation_depth_sigma: 0, finalization_gap_bound: 7 };
    BftBlock::try_from(&params, 5, FatPointerToBftBlock2::null(), 0, Vec::new()).unwrap()
}

#[test]
fn vote_bytes_roundtrip() {
    let vote = MalVote {
        validator_address: MalPublicKey2([7; 32]),
        value: NilOrVal::Val(MalValueId(Blake3Hash([9; 32]))),
        height: MalHeight::new(42),
        typ: VoteType::Precommit,
        round: MalRound::new(3),
    };
    let bytes = vote.to_bytes();
    assert_eq!(&bytes[0..32], &[7u8; 32]);
    assert_eq!(&bytes[32..64], &[9u8; 32]);
    assert_eq!(u64::from_le_bytes(bytes[64..72].try_into().unwrap()), 42);
    assert_eq!(u32::from_le_bytes(bytes[72..76].try_into().unwrap()), 3 | 0x8000_0000);
    assert_eq!(MalVote::from_bytes(&bytes), vote);
    let nil = MalVote { value: NilOrVal::Nil, typ: VoteType::Prevote, ..vote };
    let nb = nil.to_bytes();
    assert_eq!(&nb[32..64], &[0u8; 32]);
    assert_eq!(MalVote::from_bytes(&nb), nil);
}

#[test]
fn heights_and_rounds() {
    let h = MalHeight::new(5);
    assert_eq!(h.increment().as_u64(), 6);
    assert_eq!(h.decrement().map(|x| x.as_u64()), Some(4));
    assert!(MalHeight::new(0).decrement().is_none());
    assert_eq!(h.decrement_by(9).map(|x| x.as_u64()), Some(0));
    assert_eq!(MalRound::Nil.as_i64(), -1);
    assert_eq!(MalRound::new(4).as_u32(), Some(4));
}

#[test]
fn validator_set_and_proposer() {
    let a = MalValidator::new([1; 32], 10);
    let b = MalValidator::new([2; 32], 5);
    let set = MalValidatorSet::new(vec![a, a, b]);
    assert_eq!(set.count(), 2);
    let sorted = MalValidatorSet::new(vec![b, a, b]);
    assert_eq!(sorted.validators, vec![a, b]);
    assert_eq!(set.total_voting_power(), 15);
    assert_eq!(set.get_by_address(&[2; 32]), Some(&b));
    assert_eq!(set.get_by_public_key(&[3; 32]), None);
    let ctx = MalContext;
    assert_eq!(ctx.select_proposer(&set, MalHeight::new(1), MalRound::new(0)), &a);
    assert_eq!(ctx.select_proposer(&set, MalHeight::new(1), MalRound::new(1)), &b);
    assert_eq!(ctx.select_proposer(&set, MalHeight::new(2), MalRound::new(1)), &a);
}

#[test]
fn provider_signatures_verify() {
    let seed = [11u8; 32];
    let provider = MalEd25519Provider::new(seed);
    let pk = public_key(seed);
    let sig = provider.sign(b"hello");
    assert!(provider.verify(b"hello", &sig, &pk));
    assert!(!provider.verify(b"hellp", &sig, &pk));
}

fn signed_certificate(seeds: &[[u8; 32]]) -> MalCommitCertificate {
    let mut cert = MalCommitCertificate {
        height: MalHeight::new(8),
        round: MalRound::new(1),
        value_id: MalValueId(Blake3Hash([0x5a; 32])),
        commit_signatures: Vec::new(),
    };
    for seed in seeds {
        let pk = public_key(*seed);
        let vote = MalVote {
            validator_address: MalPublicKey2(pk),
            value: NilOrVal::Val(cert.value_id),
            height: cert.height,
            typ: VoteType::Precommit,
            round: cert.round,
        };
        let sig = MalEd25519Provider::new(*seed).sign(&vote.to_bytes());
        cert.commit_signatures.push(MalCommitSignature { address: MalPublicKey2(pk), signature: sig });
    }
    cert
}

#[test]
fn certificate_fat_pointer_validates() {
    let cert = signed_certificate(&[[1; 32], [2; 32]]);
    let fp = FatPointerToBftBlock2::from_certificate(&cert);
    assert_eq!(fp.points_at_block_hash(), Blake3Hash([0x5a; 32]));
    assert!(fp.validate_signatures());
    let template = fp.get_vote_template();
    assert_eq!(template.height, MalHeight::new(8));
    assert_eq!(template.round, MalRound::new(1));
    let back = certificate_from_fat_pointer(&fp);
    assert_eq!(back.height, cert.height);
    assert_eq!(back.value_id, cert.value_id);
    let mut bad = fp.clone();
    bad.signatures[1].vote_signature[0] ^= 1;
    assert!(!bad.validate_signatures());
}

#[test]
fn driver_replays_what_it_proposed() {
    let mut d = MalachiteDriver::new(3);
    let h = MalHeight::new(3);
    assert!(d.started_round(h, 0).is_none());
    assert!(matches!(d.get_value(h, 0), GetValueDecision::NeedNewBlock));
    let block = empty_block();
    let expected = block.zcash_serialize_to_vec();
    let proposed = d.propose_new_block(h, 0, [4; 32], block);
    assert_eq!(proposed.value.value_bytes, expected);
    match d.get_value(h, 0) {
        GetValueDecision::Replay(p) => {
            assert_eq!(p.value.value_bytes, expected);
            assert_eq!(p.validity, MalValidity::Valid);
            assert_eq!(p.valid_round, MalRound::Nil);
            assert_eq!(p.proposer, MalPublicKey2([4; 32]));
        }
        other => panic!("unexpected {:?}", other),
    }
    assert!(d.started_round(h, 0).is_some());
    assert!(d.started_round(h, 1).is_none());
    assert_eq!(d.running.round, 1);
}

#[test]
fn driver_synced_values() {
    let mut d = MalachiteDriver::new(3);
    let other = d.process_synced_value(
        MalHeight::new(4),
        MalRound::new(0),
        MalPublicKey2([1; 32]),
        MalValue { value_bytes: vec![1, 2] },
    );
    assert_eq!(other.validity, MalValidity::Invalid);
    assert!(d.proposal_at(0).is_none());
    let mine = d.process_synced_value(
        MalHeight::new(3),
        MalRound::new(2),
        MalPublicKey2([1; 32]),
        MalValue { value_bytes: vec![1, 2] },
    );
    assert_eq!(mine.validity, MalValidity::Valid);
    assert_eq!(d.running.round, 2);
    assert_eq!(d.proposal_at(2).unwrap().value.value_bytes, vec![1, 2]);
    assert!(d.answers_validator_set(MalHeight::new(3)));
    assert!(!d.answers_validator_set(MalHeight::new(4)));
}

#[test]
fn driver_decides_and_moves_on() {
    let mut d = MalachiteDriver::new(3);
    let h = MalHeight::new(3);
    d.started_round(h, 0);
    let block = empty_block();
    let bytes = block.zcash_serialize_to_vec();
    d.propose_new_block(h, 0, [4; 32], block.clone());
    let wrong = MalCommitCertificate {
        height: h,
        round: MalRound::new(0),
        value_id: MalValueId(Blake3Hash([0; 32])),
        commit_signatures: Vec::new(),
    };
    assert_eq!(d.on_decided(&wrong), Err(DecidedError::ValueIdMismatch));
    assert_eq!(d.running.height, 3);
    assert!(d.proposal_at(0).is_some());
    assert_ne!(d.err_flags & msg_flag_bit(BFTMsgFlag::Decided), 0);
    let cert = MalCommitCertificate {
        height: h,
        round: MalRound::new(0),
        value_id: MalValueId(Blake3Hash(*blake3::hash(&bytes).as_bytes())),
        commit_signatures: Vec::new(),
    };
    assert_eq!(d.on_decided(&cert), Ok(()));
    assert_eq!(d.running.height, 4);
    assert_eq!(d.running.round, 0);
    assert!(d.proposal_at(0).is_none());
    match &d.pending_block {
        Some((b, fp)) => {
            assert_eq!(b, &block);
            assert_eq!(fp, &FatPointerToBftBlock2::from_certificate(&cert));
        }
        None => panic!("a block should wait"),
    }
    assert!(matches!(d.get_value(MalHeight::new(4), 0), GetValueDecision::Busy));
    d.pending_block_accepted();
    assert!(matches!(d.get_value(MalHeight::new(4), 0), GetValueDecision::NeedNewBlock));
}

#[test]
fn decided_with_bad_signature_is_refused() {
    let mut d = MalachiteDriver::new(8);
    let h = MalHeight::new(8);
    d.started_round(h, 1);
    let bytes = empty_block().zcash_serialize_to_vec();
    d.propose_new_block(h, 1, [4; 32], empty_block());
    let mut cert = signed_certificate(&[[1; 32]]);
    cert.value_id = MalValueId(Blake3Hash(*blake3::hash(&bytes).as_bytes()));
    cert.commit_signatures[0].signature[32..].copy_from_slice(&[0xff; 32]);
    assert_eq!(d.on_decided(&cert), Err(DecidedError::SignaturesRejected));
    assert!(d.pending_block.is_none());
}

#[test]
fn proposal_part_steps() {
    let seed = [21u8; 32];
    let provider = MalEd25519Provider::new(seed);
    let pk = public_key(seed);
    let mut d = MalachiteDriver::new(3);
    let h = MalHeight::new(3);
    let proposed = d.propose_new_block(h, 0, pk, empty_block());
    assert!(matches!(d.on_proposal_part(&provider, &StreamContent::Fin), ProposalPartDecision::Refused));
    assert_ne!(d.err_flags & msg_flag_bit(BFTMsgFlag::ReceivedProposalPart), 0);
    let mut d2 = MalachiteDriver::new(3);
    let mut forged = stream_proposal(&proposed, pk, &provider);
    forged.data_bytes.push(0);
    assert!(matches!(
        d2.on_proposal_part(&provider, &StreamContent::Data(forged)),
        ProposalPartDecision::Refused
    ));
    assert_eq!(d2.err_flags, msg_flag_bit(BFTMsgFlag::ReceivedProposalPart));
    assert!(d2.proposal_at(0).is_none());
    let mut d3 = MalachiteDriver::new(3);
    let good = stream_proposal(&proposed, pk, &provider);
    match d3.on_proposal_part(&provider, &StreamContent::Data(good)) {
        ProposalPartDecision::Block(b) => assert_eq!(b, empty_block()),
        other => panic!("unexpected {:?}", other),
    }
    assert_eq!(d3.err_flags, 0);
    assert_eq!(d3.msg_flags, msg_flag_bit(BFTMsgFlag::ReceivedProposalPart));
}

#[test]
fn proposal_parts_window_and_signature() {
    let seed = [21u8; 32];
    let provider = MalEd25519Provider::new(seed);
    let pk = public_key(seed);
    let mut d = MalachiteDriver::new(3);
    let h = MalHeight::new(3);
    let proposed = d.propose_new_block(h, 0, pk, empty_block());
    let part = stream_proposal(&proposed, pk, &provider);
    assert_eq!(part.pol_round, MalRound::Nil);
    assert_eq!(part.data_bytes, proposed.value.value_bytes);
    assert!(proposal_signature_valid(&provider, &part));
    let mut forged = stream_proposal(&proposed, pk, &provider);
    forged.data_bytes.push(0);
    assert!(!proposal_signature_valid(&provider, &forged));
    assert!(d.proposal_part_in_window(&part));
    let mut late = stream_proposal(&proposed, pk, &provider);
    late.round = MalRound::new(2);
    assert!(!d.proposal_part_in_window(&late));
    let mut wrong_height = stream_proposal(&proposed, pk, &provider);
    wrong_height.height = MalHeight::new(4);
    assert!(!d.proposal_part_in_window(&wrong_height));
    let kept = d.store_received_proposal(&part, empty_block(), MalValidity::Invalid);
    assert_eq!(kept.validity, MalValidity::Invalid);
    assert_eq!(d.proposal_at(0).unwrap().validity, MalValidity::Invalid);
}

#[test]
fn vote_extensions_and_stream_ids() {
    assert!(extend_vote().is_empty());
    assert_eq!(verify_vote_extension(&[]), Ok(()));
    assert_eq!(verify_vote_extension(&[1]), Err(MalVoteExtensionError::InvalidVoteExtension));
    assert_eq!(stream_id(MalHeight::new(0x0102), 0x0304), vec![0, 0, 0, 0, 0, 0, 1, 2, 0, 0, 3, 4]);
    let r = RunningMalachite::new(9);
    assert_eq!((r.height, r.round, r.should_terminate), (9, 0, false));
}

#[test]
fn proposals_from_context() {
    let ctx = MalContext;
    let p = ctx.new_proposal(
        MalHeight::new(4),
        MalRound::new(1),
        MalValue { value_bytes: vec![3, 4] },
        MalRound::Nil,
        MalPublicKey2([6; 32]),
    );
    assert_eq!(p.height(), MalHeight::new(4));
    assert_eq!(p.round(), MalRound::new(1));
    assert_eq!(p.pol_round(), MalRound::Nil);
    assert_eq!(p.validator_address(), &MalPublicKey2([6; 32]));
    assert_eq!(p.value().value_bytes, vec![3, 4]);
    assert_eq!(p.take_value().value_bytes, vec![3, 4]);
}

#[test]
fn key_and_value_id_text() {
    let mut key = [0u8; 32];
    key[0] = 0xab;
    key[31] = 0x0c;
    assert_eq!(MalPublicKey2(key).to_display_string(), format!("AB{}0C", "00".repeat(30)));
    let id = MalValueId(Blake3Hash([0xfe; 32]));
    assert_eq!(id.to_display_string(), "fe".repeat(32));
}

#[test]
fn vote_and_validator_accessors() {
    let vote = MalVote {
        validator_address: MalPublicKey2([7; 32]),
        value: NilOrVal::Nil,
        height: MalHeight::new(2),
        typ: VoteType::Prevote,
        round: MalRound::new(0),
    };
    assert_eq!(vote.height(), MalHeight::new(2));
    assert_eq!(vote.round(), MalRound::new(0));
    assert_eq!(vote.value(), &NilOrVal::Nil);
    assert_eq!(vote.vote_type(), VoteType::Prevote);
    assert_eq!(vote.validator_address(), &MalPublicKey2([7; 32]));
    assert_eq!(vote.extend(vec![1, 2, 3]), vote);
    assert_eq!(vote.take_value(), NilOrVal::Nil);
    let v = MalValidator::new([5; 32], 9);
    assert_eq!((v.address(), v.public_key(), v.voting_power()), (&MalPublicKey2([5; 32]), &[5u8; 32], 9));
}

#[test]
fn non_canonical_signature_half_is_refused() {
    let cert = signed_certificate(&[[1; 32], [2; 32]]);
    let mut fp = FatPointerToBftBlock2::from_certificate(&cert);
    for b in fp.signatures[0].vote_signature[32..].iter_mut() {
        *b = 0xff;
    }
    assert!(!fp.validate_signatures());
}
