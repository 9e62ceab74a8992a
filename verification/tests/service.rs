use zebra_crosslink::service::{
    block_finality_after_headers, block_finality_after_height, block_finality_start,
    blocks_to_announce, finality_gap, tx_finality_status, BlockFinalityStep, BlockSequenceWalk,
    initial_validator_addresses, FinalBlockSource, FinalityGap, TFLMainLoop, TFLServiceError, TFLServiceInternal,
    TFLServiceRequest, TFLServiceResponse,
};
use zebra_crosslink::tfl::{TFLBlockFinality, TFLStaker, TFL_ACTIVATION_HEIGHT};

fn h(b: u8) -> [u8; 32] {
    [b; 32]
}

#[test]
fn local_requests_are_answered_from_state() {
    let mut s = TFLServiceInternal::new();
    match s.respond_locally(&TFLServiceRequest::IsTFLActivated) {
        Some(Ok(TFLServiceResponse::IsTFLActivated(false))) => {}
        other => panic!("unexpected {:?}", other),
    }
    for (id, stake) in [(1u64, 10u64), (2, 40), (3, 30), (4, 20)] {
        match s.respond_locally(&TFLServiceRequest::UpdateStaker(TFLStaker { id, stake })) {
            Some(Ok(TFLServiceResponse::UpdateStaker)) => {}
            other => panic!("unexpected {:?}", other),
        }
    }
    match s.respond_locally(&TFLServiceRequest::Roster) {
        Some(Ok(TFLServiceResponse::Roster(r))) => {
            let ids: Vec<u64> = r.finalizers.iter().map(|f| f.id).collect();
            assert_eq!(ids, vec![2, 3, 4]);
        }
        other => panic!("unexpected {:?}", other),
    }
    match s.respond_locally(&TFLServiceRequest::FatPointerToBFTChainTip) {
        Some(Err(TFLServiceError::NotImplemented)) => {}
        other => panic!("unexpected {:?}", other),
    }
    assert!(s.respond_locally(&TFLServiceRequest::FinalBlockHash).is_none());
    assert!(s.respond_locally(&TFLServiceRequest::SetFinalBlockHash(h(1))).is_none());
}

#[test]
fn finality_is_set_only_when_activated() {
    let mut s = TFLServiceInternal::new();
    assert_eq!(s.set_finality_by_hash(h(7), Some(2100)), None);
    assert_eq!(s.latest_final_block, None);
    s.tfl_is_activated = true;
    assert_eq!(s.set_finality_by_hash(h(7), None), None);
    assert_eq!(s.latest_final_block, None);
    assert_eq!(s.set_finality_by_hash(h(7), Some(2100)), Some(2100));
    assert_eq!(s.latest_final_block, Some((2100, h(7))));
}

#[test]
fn activation_waits_for_height() {
    let mut s = TFLServiceInternal::new();
    assert!(s.activation_step(None));
    assert!(!s.tfl_is_activated);
    assert!(!s.activation_step(Some((TFL_ACTIVATION_HEIGHT - 1, h(1)))));
    assert!(!s.tfl_is_activated);
    assert!(s.activation_step(Some((TFL_ACTIVATION_HEIGHT, h(1)))));
    assert!(s.tfl_is_activated);
    assert!(s.activation_step(Some((5, h(1)))));
    assert!(s.tfl_is_activated);
}

#[test]
fn block_finality_decisions() {
    match block_finality_start(Some((10, h(1))), None) {
        Err(TFLServiceError::Misc(m)) => assert_eq!(m, "There is no final block."),
        other => panic!("unexpected {:?}", other),
    }
    let fin = Some((10, h(9)));
    assert!(matches!(block_finality_start(None, fin), Ok(BlockFinalityStep::Done(None))));
    assert!(matches!(
        block_finality_start(Some((11, h(1))), fin),
        Ok(BlockFinalityStep::Done(Some(TFLBlockFinality::NotYetFinalized)))
    ));
    assert!(matches!(
        block_finality_start(Some((10, h(9))), fin),
        Ok(BlockFinalityStep::Done(Some(TFLBlockFinality::Finalized)))
    ));
    match block_finality_start(Some((8, h(1))), fin) {
        Ok(BlockFinalityStep::FindHeadersFrom(x)) => assert_eq!(x, h(1)),
        other => panic!("unexpected {:?}", other),
    }
    assert!(matches!(
        block_finality_after_headers(Some(h(9)), h(9)),
        BlockFinalityStep::Done(Some(TFLBlockFinality::Finalized))
    ));
    match block_finality_after_headers(Some(h(3)), h(9)) {
        BlockFinalityStep::HeightOf(x) => assert_eq!(x, h(3)),
        other => panic!("unexpected {:?}", other),
    }
    assert!(matches!(block_finality_after_headers(None, h(9)), BlockFinalityStep::Done(None)));
    assert!(matches!(
        block_finality_after_height(h(3), Some(10), 10),
        BlockFinalityStep::Done(Some(TFLBlockFinality::CantBeFinalized))
    ));
    match block_finality_after_height(h(3), Some(9), 10) {
        BlockFinalityStep::FindHeadersFrom(x) => assert_eq!(x, h(3)),
        other => panic!("unexpected {:?}", other),
    }
    assert!(matches!(block_finality_after_height(h(3), None, 10), BlockFinalityStep::Done(None)));
}

#[test]
fn tx_finality_decisions() {
    assert_eq!(tx_finality_status(None, None), Ok(None));
    assert_eq!(
        tx_finality_status(Some(3), None),
        Err(TFLServiceError::Misc("There is no final block.".to_string()))
    );
    assert_eq!(
        tx_finality_status(Some(10), Some((10, h(0)))),
        Ok(Some(TFLBlockFinality::Finalized))
    );
    assert_eq!(
        tx_finality_status(Some(11), Some((10, h(0)))),
        Ok(Some(TFLBlockFinality::NotYetFinalized))
    );
}

#[test]
fn main_loop_final_block_source() {
    let mut l = TFLMainLoop::new();
    assert!(matches!(
        l.final_block_source(Some((5, h(5))), None),
        FinalBlockSource::Known(Some((5, _)))
    ));
    assert!(matches!(l.final_block_source(None, Some((9, h(9)))), FinalBlockSource::ReorgLookup));
    assert!(matches!(l.final_block_source(None, None), FinalBlockSource::Known(None)));
    l.end_iteration(Some((9, h(9))), Some((3, h(3))));
    assert!(matches!(
        l.final_block_source(None, Some((9, h(9)))),
        FinalBlockSource::Known(Some((3, _)))
    ));
}

#[test]
fn main_loop_final_change_and_announcements() {
    let mut l = TFLMainLoop::new();
    let c = l.final_change(Some((3, h(3)))).unwrap();
    assert_eq!((c.start_hash, c.new_final_hash), (h(3), h(3)));
    assert!(l.final_change(None).is_none());
    l.end_iteration(None, Some((3, h(3))));
    assert!(l.final_change(Some((3, h(3)))).is_none());
    let c = l.final_change(Some((6, h(6)))).unwrap();
    assert_eq!((c.start_hash, c.new_final_hash), (h(3), h(6)));
    let seq = vec![h(3), h(4), h(5), h(6)];
    assert_eq!(blocks_to_announce(&seq, Some((3, h(3)))), vec![h(4), h(5), h(6)]);
    assert_eq!(blocks_to_announce(&seq, None), seq);
}

#[test]
fn finality_gap_reports() {
    assert_eq!(finality_gap(None, Some((1, h(0)))), None);
    assert_eq!(finality_gap(Some((5, h(0))), Some((8, h(0)))), Some(FinalityGap::TipBelowFinal(3)));
    assert_eq!(finality_gap(Some((600, h(0))), Some((80, h(0)))), Some(FinalityGap::FallingBehind(520)));
    assert_eq!(finality_gap(Some((592, h(0))), Some((80, h(0)))), Some(FinalityGap::WithinBound));
}

#[test]
fn block_sequence_walk() {
    assert!(BlockSequenceWalk::start(h(1), None, true, Some(5)).is_none());
    assert!(BlockSequenceWalk::start(h(1), Some((5, h(0))), true, None).is_none());
    assert!(BlockSequenceWalk::start(h(1), Some((5, h(0))), true, Some(4)).is_none());
    let w = BlockSequenceWalk::start(h(1), Some((5, h(0))), false, Some(6)).unwrap();
    assert_eq!(w.next_known, h(1));
    let mut w = BlockSequenceWalk::start(h(1), Some((5, h(0))), true, Some(6)).unwrap();
    assert_eq!(w.next_known, h(0));
    w.feed_chunk(Some(vec![h(1), h(2)]));
    assert!(!w.done);
    assert_eq!(w.next_known, h(2));
    w.feed_chunk(Some(vec![h(3)]));
    assert_eq!(w.hashes, vec![h(1), h(2), h(3)]);
    w.feed_chunk(Some(vec![]));
    assert!(w.done);
    assert_eq!(w.hashes, vec![h(1), h(2), h(3)]);
    let mut w2 = BlockSequenceWalk::start(h(1), Some((5, h(0))), true, Some(6)).unwrap();
    w2.feed_chunk(None);
    assert!(w2.done);
    assert!(w2.hashes.is_empty());
}

#[test]
fn initial_validators_come_from_peers_or_own_address() {
    let peers = vec!["/ip4/1.2.3.4/udp/1/quic-v1".to_string(), "/ip4/5.6.7.8/udp/2/quic-v1".to_string()];
    assert_eq!(initial_validator_addresses(&peers, &None), peers);
    assert_eq!(
        initial_validator_addresses(&vec![], &Some("/ip4/9.9.9.9/udp/3/quic-v1".to_string())),
        vec!["/ip4/9.9.9.9/udp/3/quic-v1".to_string()]
    );
    assert_eq!(
        initial_validator_addresses(&vec![], &None),
        vec!["/ip4/127.0.0.1/udp/45869/quic-v1".to_string()]
    );
}

#[test]
fn block_sequence_walk_checks_the_first_hash() {
    let w = BlockSequenceWalk::start(h(1), Some((5, h(0))), true, Some(6)).unwrap();
    assert_eq!(w.first_hash, Some(h(1)));
    assert!(w.chunk_is_expected(&Some(vec![h(1), h(2)])));
    assert!(!w.chunk_is_expected(&Some(vec![h(7), h(2)])));
    assert!(w.chunk_is_expected(&Some(vec![])));
    assert!(w.chunk_is_expected(&None));
    let mut w = w;
    w.feed_chunk(Some(vec![h(1)]));
    // later answers may begin with any hash
    assert!(w.chunk_is_expected(&Some(vec![h(7)])));
    let free = BlockSequenceWalk::start(h(1), Some((5, h(0))), false, Some(6)).unwrap();
    assert_eq!(free.first_hash, None);
    assert!(free.chunk_is_expected(&Some(vec![h(7)])));
}
