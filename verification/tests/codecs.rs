use zebra_crosslink::block_header::{BlockTimeError, Header, HeaderFault};
use zebra_crosslink::chain::{
    BftBlock, BftBlockAndFatPointerToIt, Blake3Hash, InvalidBftBlock, ZcashCrosslinkParameters,
};
use zebra_crosslink::fat_pointer::{FatPointerSignature, FatPointerToBftBlock};
use zebra_crosslink::mal_system::{FatPointerSignature2, FatPointerToBftBlock2};
use zebra_crosslink::serialization::{ParseFailure, SerializationError};

fn sig(k: u8) -> FatPointerSignature {
    FatPointerSignature { public_key: [k; 32], vote_signature: [k.wrapping_add(1); 64] }
}

fn fat_pointer(n: u8) -> FatPointerToBftBlock {
    let mut vote = [0u8; 44];
    for (i, b) in vote.iter_mut().enumerate() {
        *b = i as u8;
    }
    FatPointerToBftBlock {
        vote_for_block_without_finalizer_public_key: vote,
        signatures: (0..n).map(sig).collect(),
    }
}

fn header(version: u32) -> Header {
    Header {
        version,
        previous_block_hash: [1; 32],
        merkle_root: [2; 32],
        commitment_bytes: [3; 32],
        time: 1_700_000_000,
        difficulty_threshold: 0x1f07ffff,
        nonce: [4; 32],
        solution: vec![5; 1344],
        fat_pointer_to_bft_block: if version >= 5 { fat_pointer(1) } else { FatPointerToBftBlock::null() },
    }
}

#[test]
fn fat_pointer_bytes_roundtrip() {
    let fp = fat_pointer(2);
    let bytes = fp.to_bytes();
    assert_eq!(bytes.len(), 44 + 2 + 2 * 96);
    assert_eq!(&bytes[44..46], &[2, 0]);
    assert_eq!(FatPointerToBftBlock::try_from_bytes(&bytes), Some(fp));
}

#[test]
fn fat_pointer_too_short_is_none() {
    assert_eq!(FatPointerToBftBlock::try_from_bytes(&vec![0u8; 45]), None);
    let mut bytes = fat_pointer(2).to_bytes();
    bytes.truncate(44 + 2 + 96 + 10);
    assert_eq!(FatPointerToBftBlock::try_from_bytes(&bytes), None);
}

#[test]
fn fat_pointer_points_at_first_32_bytes() {
    let fp = fat_pointer(0);
    let h = fp.points_at_block_hash();
    assert_eq!(h[0], 0);
    assert_eq!(h[31], 31);
    let fp2 = FatPointerToBftBlock2::from_non_two(&fp);
    assert_eq!(fp2.points_at_block_hash(), Blake3Hash(h));
    assert_eq!(fp2.to_non_two(), fp);
}

#[test]
fn fat_pointer_stream_roundtrip() {
    let fp = fat_pointer(3);
    let mut out = vec![0xee];
    fp.zcash_serialize(&mut out);
    let (back, end) = FatPointerToBftBlock::zcash_deserialize(&out, 1).unwrap();
    assert_eq!(back, fp);
    assert_eq!(end, out.len());
    assert_eq!(
        FatPointerToBftBlock::zcash_deserialize(&out[..40], 0).err(),
        Some(SerializationError::UnexpectedEnd)
    );
}

#[test]
fn fat_pointer_display() {
    let mut fp = FatPointerToBftBlock::null();
    fp.signatures.push(FatPointerSignature { public_key: [0xab; 32], vote_signature: [0xcd; 64] });
    let text = fp.to_display_string();
    let expected = format!(
        "{{hash:{} ovd:{} signatures:[{{pk:{} sig:{}}}]}}",
        "00".repeat(32),
        "00".repeat(12),
        "ab".repeat(32),
        "cd".repeat(64)
    );
    assert_eq!(text, expected);
}

#[test]
fn signature_bytes_roundtrip() {
    let s = sig(9);
    let b = s.to_bytes();
    assert_eq!(&b[..32], &[9u8; 32]);
    assert_eq!(FatPointerSignature::from_bytes(&b), s);
    let s2 = FatPointerSignature2::from_non_two(&s);
    assert_eq!(FatPointerSignature2::from_bytes(&s2.to_bytes()), s2);
}

#[test]
fn header_roundtrip_v4_and_v5() {
    for version in [4u32, 5] {
        let h = header(version);
        let mut out = Vec::new();
        h.zcash_serialize(&mut out);
        let (back, end) = Header::zcash_deserialize(&out, 0).unwrap();
        assert_eq!(back, h);
        assert_eq!(end, out.len());
    }
}

#[test]
fn header_rejects_low_version_and_bad_solution() {
    let mut out = Vec::new();
    header(3).zcash_serialize(&mut out);
    assert_eq!(
        Header::zcash_deserialize(&out, 0).err(),
        Some(SerializationError::Parse(ParseFailure::VersionTooLow))
    );
    let mut h = header(4);
    h.solution = vec![0; 100];
    let mut out = Vec::new();
    h.zcash_serialize(&mut out);
    assert_eq!(
        Header::zcash_deserialize(&out, 0).err(),
        Some(SerializationError::Parse(ParseFailure::BadSolutionSize))
    );
}

#[test]
fn header_time_check() {
    let h = header(4);
    assert!(h.time_is_valid_at(1_700_000_000 - 7200, 10, [0; 32]).is_ok());
    assert_eq!(
        h.time_is_valid_at(1_700_000_000 - 7201, 10, [7; 32]),
        Err(BlockTimeError::InvalidBlockTime(1_700_000_000, 10, [7; 32], 1_699_999_999))
    );
}

/// `n` version-4 headers, tip first, each naming the next as its parent.
fn header_chain(n: usize) -> Vec<Header> {
    let mut chain: Vec<Header> = Vec::new();
    for i in 0..n {
        let mut h = header(4);
        h.time = 1_700_000_000 - i as u32;
        chain.push(h);
    }
    for i in (0..n.saturating_sub(1)).rev() {
        let parent_hash = chain[i + 1].hash();
        chain[i].previous_block_hash = parent_hash;
    }
    chain
}

fn bft_block(n_headers: usize) -> Result<BftBlock, InvalidBftBlock> {
    let params = ZcashCrosslinkParameters { bc_confirmation_depth_sigma: 2, finalization_gap_bound: 7 };
    BftBlock::try_from(&params, 12, FatPointerToBftBlock2::null(), 10, header_chain(n_headers))
}

#[test]
fn bft_block_checks_header_versions_and_order() {
    let params = ZcashCrosslinkParameters { bc_confirmation_depth_sigma: 3, finalization_gap_bound: 7 };
    let mut bad_version = header_chain(3);
    bad_version[2].version = 3;
    assert_eq!(
        BftBlock::try_from(&params, 1, FatPointerToBftBlock2::null(), 0, bad_version).err(),
        Some(InvalidBftBlock::InvalidHeader(HeaderFault::UnexpectedVersion { index: 2, version: 3 }))
    );
    let mut out_of_order = header_chain(3);
    out_of_order.swap(1, 2);
    assert_eq!(
        BftBlock::try_from(&params, 1, FatPointerToBftBlock2::null(), 0, out_of_order).err(),
        Some(InvalidBftBlock::InvalidHeader(HeaderFault::OutOfOrder { index: 0 }))
    );
    assert!(BftBlock::try_from(&params, 1, FatPointerToBftBlock2::null(), 0, header_chain(3)).is_ok());
}

#[test]
fn bft_block_needs_sigma_headers() {
    assert_eq!(
        bft_block(3).err(),
        Some(InvalidBftBlock::IncorrectConfirmationDepth { expected: 2, actual: 3 })
    );
    let b = bft_block(2).unwrap();
    assert_eq!(b.version, 1);
    assert_eq!(b.height, 12);
    assert_eq!(b.finalization_candidate().version, 4);
}

#[test]
fn bft_block_roundtrip_and_hash() {
    let b = bft_block(2).unwrap();
    let bytes = b.zcash_serialize_to_vec();
    let (back, end) = BftBlock::zcash_deserialize(&bytes, 0).unwrap();
    assert_eq!(back, b);
    assert_eq!(end, bytes.len());
    let hash = b.blake3_hash();
    assert_eq!(hash.0, *blake3::hash(&bytes).as_bytes());
    assert_ne!(hash.0, [0u8; 32]);
    assert_eq!(b.previous_block_hash(), Blake3Hash([0u8; 32]));
    assert_eq!(hash.to_display_string(), blake3::hash(&bytes).to_hex().to_string());
}

#[test]
fn bft_block_with_fat_pointer_roundtrip() {
    let b = bft_block(2).unwrap();
    let fp = FatPointerToBftBlock2::from_non_two(&fat_pointer(2));
    let both = BftBlockAndFatPointerToIt { block: b.clone(), fat_ptr: fp.clone() };
    let mut out = Vec::new();
    both.zcash_serialize(&mut out);
    let (back, end) = BftBlockAndFatPointerToIt::zcash_deserialize(&out, 0).unwrap();
    assert_eq!(back.block, b);
    assert_eq!(back.fat_ptr, fp);
    assert_eq!(end, out.len());
}

#[test]
fn header_hash_is_double_sha256_of_encoding() {
    let h = header(4);
    let mut bytes = Vec::new();
    h.zcash_serialize(&mut bytes);
    let once = <sha2::Sha256 as sha2::Digest>::digest(&bytes);
    let twice: [u8; 32] = <sha2::Sha256 as sha2::Digest>::digest(once).into();
    assert_eq!(h.hash(), twice);
    let mut other = header(4);
    other.nonce = [9; 32];
    assert_ne!(other.hash(), h.hash());
}

#[test]
fn bft_block_with_too_many_headers_is_refused() {
    let mut bytes = bft_block(2).unwrap().zcash_serialize_to_vec();
    let count_at = 8 + 46 + 4;
    bytes[count_at..count_at + 4].copy_from_slice(&2049u32.to_le_bytes());
    assert_eq!(
        BftBlock::zcash_deserialize(&bytes, 0).err(),
        Some(SerializationError::Parse(ParseFailure::TooManyHeaders))
    );
    bytes[count_at..count_at + 4].copy_from_slice(&3u32.to_le_bytes());
    assert_eq!(BftBlock::zcash_deserialize(&bytes, 0).err(), Some(SerializationError::UnexpectedEnd));
}

#[test]
fn blake3_hash_bytes_roundtrip() {
    let h = Blake3Hash([0x42; 32]);
    let mut out = vec![1, 2];
    h.zcash_serialize(&mut out);
    assert_eq!(out.len(), 34);
    assert_eq!(Blake3Hash::zcash_deserialize(&out, 2), Ok((h, 34)));
    assert_eq!(Blake3Hash::zcash_deserialize(&out, 3).err(), Some(SerializationError::UnexpectedEnd));
}
