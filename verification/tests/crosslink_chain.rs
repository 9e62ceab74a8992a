use zebra_crosslink::block_header::{Header, HeaderFault};
use zebra_crosslink::crosslink_chain::bft::BftPayload as ParamBftPayload;
use zebra_crosslink::crosslink_chain::params::PrototypeParameters;
use zebra_crosslink::crosslink_chain::util::FixedLengthVec;
use zebra_crosslink::crosslink_chain::{
    prototype_parameters, BftPayload, InvalidBftPayload, ZcashCrosslinkParameters,
};
use zebra_crosslink::fat_pointer::FatPointerToBftBlock;

fn header(time: u32) -> Header {
    Header {
        version: 4,
        previous_block_hash: [0; 32],
        merkle_root: [0; 32],
        commitment_bytes: [0; 32],
        time,
        difficulty_threshold: 0,
        nonce: [0; 32],
        solution: vec![0; 1344],
        fat_pointer_to_bft_block: FatPointerToBftBlock::null(),
    }
}

#[test]
fn prototype_parameters_values() {
    let p = prototype_parameters();
    assert_eq!(p.bc_confirmation_depth_sigma, 3);
    assert_eq!(p.finalization_gap_bound, 7);
}

/// Headers tip first, with these times, each naming the next as its parent.
fn chain(times: &[u32]) -> Vec<Header> {
    let mut hs: Vec<Header> = times.iter().map(|t| header(*t)).collect();
    for i in (0..hs.len().saturating_sub(1)).rev() {
        let parent_hash = hs[i + 1].hash();
        hs[i].previous_block_hash = parent_hash;
    }
    hs
}

#[test]
fn payload_needs_sigma_headers() {
    let p = ZcashCrosslinkParameters { bc_confirmation_depth_sigma: 2, finalization_gap_bound: 7 };
    let err = BftPayload::try_from(&p, chain(&[1, 2, 3])).unwrap_err();
    assert_eq!(err, InvalidBftPayload::IncorrectConfirmationDepth { expected: 2, actual: 3 });
    let ok = BftPayload::try_from(&p, chain(&[3, 2])).unwrap();
    assert_eq!(ok.finalization_candidate().time, 2);
    assert_eq!(
        BftPayload::try_from(&prototype_parameters(), vec![]).unwrap_err(),
        InvalidBftPayload::IncorrectConfirmationDepth { expected: 3, actual: 0 }
    );
}

#[test]
fn payload_checks_header_order_and_version() {
    let p = ZcashCrosslinkParameters { bc_confirmation_depth_sigma: 2, finalization_gap_bound: 7 };
    assert_eq!(
        BftPayload::try_from(&p, vec![header(1), header(2)]).unwrap_err(),
        InvalidBftPayload::InvalidHeader(HeaderFault::OutOfOrder { index: 0 })
    );
    let mut old = chain(&[3, 2]);
    old[0].version = 2;
    assert_eq!(
        BftPayload::try_from(&p, old).unwrap_err(),
        InvalidBftPayload::InvalidHeader(HeaderFault::UnexpectedVersion { index: 0, version: 2 })
    );
}

#[test]
fn parameterized_payload_needs_sigma_headers() {
    let err = ParamBftPayload::<PrototypeParameters>::try_from(vec![header(1)]).unwrap_err();
    assert_eq!((err.expected(), err.actual()), (3, 1));
    let ok = ParamBftPayload::<PrototypeParameters>::try_from(vec![header(1), header(2), header(3)])
        .unwrap();
    assert_eq!(ok.headers().len(), 3);
}

#[test]
fn fixed_length_vec() {
    let v = FixedLengthVec::<u8, 3>::try_from(vec![1, 2, 3]).unwrap();
    assert_eq!(v.as_slice(), &[1, 2, 3]);
    assert_eq!(FixedLengthVec::<u8, 3>::try_from(vec![1]).err(), Some(1));
}
