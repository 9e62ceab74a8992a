//! The trailing finality service: its requests, responses and errors, its
//! state, and the decisions of its request handler and main loop.  The
//! caller performs every read of the node's state that a decision asks for
//! and hands the answer back.

use vstd::prelude::*;
use crate::bytes::bytes32_eq;
use crate::fat_pointer::FatPointerToBftBlock;
use crate::tfl::{
    roster, roster_of, update_staker, updated_stakers, TFLBlockFinality, TFLRoster, TFLStaker,
    TFL_ACTIVATION_HEIGHT,
};

verus! {

/// Requests that can be made to the service.
#[derive(Clone, Debug)]
pub enum TFLServiceRequest {
    /// Is the TFL service activated yet?
    IsTFLActivated,
    /// Get the final block hash.
    FinalBlockHash,
    /// Get a receiver for the final block hash.
    FinalBlockRx,
    /// Set the final block hash.
    SetFinalBlockHash([u8; 32]),
    /// Get the finality status of a block.
    BlockFinalityStatus([u8; 32]),
    /// Get the finality status of a transaction.
    TxFinalityStatus([u8; 32]),
    /// Get the finalizer roster.
    Roster,
    /// Update the list of stakers.
    UpdateStaker(TFLStaker),
    /// Get the fat pointer to the BFT chain tip.
    FatPointerToBFTChainTip,
}

/// Responses of the service, one per request kind; a receiver of final
/// blocks is handed out by the caller, which owns the channel.
#[derive(Clone, Debug)]
pub enum TFLServiceResponse {
    /// Is the TFL service activated yet?
    IsTFLActivated(bool),
    /// Final block hash.
    FinalBlockHash(Option<[u8; 32]>),
    /// Set final block hash: the height of the new final block, if set.
    SetFinalBlockHash(Option<u32>),
    /// Finality status of a block.
    BlockFinalityStatus(Option<TFLBlockFinality>),
    /// Finality status of a transaction.
    TxFinalityStatus(Option<TFLBlockFinality>),
    /// Finalizer roster.
    Roster(TFLRoster),
    /// The staker list was updated.
    UpdateStaker,
    /// Fat pointer to the BFT chain tip.
    FatPointerToBFTChainTip(FatPointerToBftBlock),
}

/// Errors that can occur when interacting with the service.
#[derive(Clone, Debug, PartialEq, Eq)]
pub enum TFLServiceError {
    /// Not implemented error.
    NotImplemented,
    /// Arbitrary error.
    Misc(String),
}

/// The text of the error when no final block is known.
pub open spec fn no_final_block_text() -> Seq<char> {
    "There is no final block."@
}

/// The error returned when a status is asked for while no block is final.
pub fn no_final_block_error() -> (e: TFLServiceError)
    ensures
        e matches TFLServiceError::Misc(m) && m@ == no_final_block_text(),
{
    TFLServiceError::Misc("There is no final block.".to_owned())
}

/// Whether two optional (height, hash) pairs are equal.
pub fn height_hash_eq(a: &Option<(u32, [u8; 32])>, b: &Option<(u32, [u8; 32])>) -> (res: bool)
    ensures
        res == (*a == *b),
{
    match (a, b) {
        (None, None) => true,
        (Some((ha, xa)), Some((hb, xb))) => *ha == *hb && bytes32_eq(xa, xb),
        _ => false,
    }
}

/// The service's own state.
#[derive(Clone, Debug)]
pub struct TFLServiceInternal {
    /// The block made final by a request, as (height, hash).
    pub latest_final_block: Option<(u32, [u8; 32])>,
    /// Whether the PoW chain has reached the activation height.
    pub tfl_is_activated: bool,
    /// The stakers, the most stake first.
    pub stakers: Vec<TFLStaker>,
}

impl TFLServiceInternal {
    /// The state of a service that has just started.
    pub fn new() -> (res: Self)
        ensures
            res.latest_final_block is None,
            !res.tfl_is_activated,
            res.stakers@.len() == 0,
    {
        TFLServiceInternal { latest_final_block: None, tfl_is_activated: false, stakers: Vec::new() }
    }

    /// Answers the requests that need nothing but the service's own state;
    /// `None` for those that need the node's state or a channel.
    pub fn respond_locally(&mut self, request: &TFLServiceRequest) -> (res: Option<
        Result<TFLServiceResponse, TFLServiceError>,
    >)
        ensures
            match *request {
                TFLServiceRequest::IsTFLActivated => {
                    &&& res matches Some(Ok(TFLServiceResponse::IsTFLActivated(b)))
                    &&& b == old(self).tfl_is_activated
                    &&& *final(self) == *old(self)
                },
                TFLServiceRequest::UpdateStaker(staker) => {
                    &&& res matches Some(Ok(TFLServiceResponse::UpdateStaker))
                    &&& final(self).stakers@ == updated_stakers(old(self).stakers@, staker)
                    &&& final(self).latest_final_block == old(self).latest_final_block
                    &&& final(self).tfl_is_activated == old(self).tfl_is_activated
                },
                TFLServiceRequest::Roster => {
                    &&& res matches Some(Ok(TFLServiceResponse::Roster(r)))
                    &&& r.finalizers@ == roster_of(old(self).stakers@)
                    &&& *final(self) == *old(self)
                },
                TFLServiceRequest::FatPointerToBFTChainTip => {
                    &&& res == Some(Err::<TFLServiceResponse, _>(TFLServiceError::NotImplemented))
                    &&& *final(self) == *old(self)
                },
                _ => res is None && *final(self) == *old(self),
            },
    {
        match request {
            TFLServiceRequest::IsTFLActivated => Some(
                Ok(TFLServiceResponse::IsTFLActivated(self.tfl_is_activated)),
            ),
            TFLServiceRequest::UpdateStaker(staker) => {
                update_staker(&mut self.stakers, *staker);
                Some(Ok(TFLServiceResponse::UpdateStaker))
            },
            TFLServiceRequest::Roster => Some(Ok(TFLServiceResponse::Roster(roster(&self.stakers)))),
            TFLServiceRequest::FatPointerToBFTChainTip => Some(Err(TFLServiceError::NotImplemented)),
            _ => None,
        }
    }

    /// Sets the final block to `hash` at the height that a lookup of `hash`
    /// gave, when the service is activated; returns the height that was set.
    /// The lookup is only needed when the service is activated.
    pub fn set_finality_by_hash(&mut self, hash: [u8; 32], looked_up_height: Option<u32>) -> (res:
        Option<u32>)
        ensures
            old(self).tfl_is_activated ==> res == looked_up_height,
            !old(self).tfl_is_activated ==> res is None,
            final(self).latest_final_block == (match res {
                Some(h) => Some((h, hash)),
                None => old(self).latest_final_block,
            }),
            final(self).tfl_is_activated == old(self).tfl_is_activated,
            final(self).stakers@ == old(self).stakers@,
    {
        if self.tfl_is_activated {
            if let Some(height) = looked_up_height {
                self.latest_final_block = Some((height, hash));
            }
            looked_up_height
        } else {
            None
        }
    }

    /// The main loop's activation step for a new PoW tip: activates the
    /// service once the tip reaches the activation height.  Returns whether
    /// the rest of the iteration runs: not while the tip is below it.
    pub fn activation_step(&mut self, new_tip: Option<(u32, [u8; 32])>) -> (proceed: bool)
        ensures
            proceed == (old(self).tfl_is_activated || !(new_tip matches Some(t) && t.0
                < TFL_ACTIVATION_HEIGHT)),
            final(self).tfl_is_activated == (old(self).tfl_is_activated || (new_tip matches Some(t)
                && t.0 >= TFL_ACTIVATION_HEIGHT)),
            final(self).latest_final_block == old(self).latest_final_block,
            final(self).stakers@ == old(self).stakers@,
    {
        if !self.tfl_is_activated {
            if let Some((height, _hash)) = new_tip {
                if height < TFL_ACTIVATION_HEIGHT {
                    return false;
                } else {
                    self.tfl_is_activated = true;
                }
            }
        }
        true
    }
}

// ---------------------------------------------------------------------------
// Finality of blocks and transactions
// ---------------------------------------------------------------------------

/// The next move in finding a block's finality.
#[derive(Clone, Copy, Debug)]
pub enum BlockFinalityStep {
    /// The answer.
    Done(Option<TFLBlockFinality>),
    /// Ask for the best-chain headers after this hash, up to the final block,
    /// and hand back the hash of the last one.
    FindHeadersFrom([u8; 32]),
    /// Ask for the height of this block and hand it back.
    HeightOf([u8; 32]),
}

/// The first move for a block's finality, given the block's (height, hash)
/// as looked up and the final block.
pub fn block_finality_start(block: Option<(u32, [u8; 32])>, final_block: Option<(u32, [u8; 32])>) -> (res:
    Result<BlockFinalityStep, TFLServiceError>)
    requires
        block matches Some(b) ==> (final_block matches Some(f) ==> (b.0 <= f.0 && b.1 == f.1 ==> b.0
            == f.0)),
    ensures
        final_block is None ==> (res matches Err(e) && e matches TFLServiceError::Misc(m) && m@
            == no_final_block_text()),
        final_block matches Some(f) ==> match block {
            None => res matches Ok(BlockFinalityStep::Done(None)),
            Some(b) => if b.0 > f.0 {
                res matches Ok(BlockFinalityStep::Done(Some(TFLBlockFinality::NotYetFinalized)))
            } else if b.1 == f.1 {
                res matches Ok(BlockFinalityStep::Done(Some(TFLBlockFinality::Finalized)))
            } else {
                res matches Ok(BlockFinalityStep::FindHeadersFrom(h)) && h == b.1
            },
        },
{
    let (final_height, final_hash) = match final_block {
        Some(f) => f,
        None => {
            return Err(no_final_block_error());
        },
    };
    match block {
        None => Ok(BlockFinalityStep::Done(None)),
        Some((height, hash)) => {
            if height > final_height {
                Ok(BlockFinalityStep::Done(Some(TFLBlockFinality::NotYetFinalized)))
            } else if bytes32_eq(&hash, &final_hash) {
                Ok(BlockFinalityStep::Done(Some(TFLBlockFinality::Finalized)))
            } else {
                Ok(BlockFinalityStep::FindHeadersFrom(hash))
            }
        },
    }
}

/// The move after a batch of headers: `None` when the headers could not be
/// read, else the hash of the last header of the batch.
pub fn block_finality_after_headers(last_header_hash: Option<[u8; 32]>, final_hash: [u8; 32]) -> (res:
    BlockFinalityStep)
    ensures
        match last_header_hash {
            None => res matches BlockFinalityStep::Done(None),
            Some(h) => if h == final_hash {
                res matches BlockFinalityStep::Done(Some(TFLBlockFinality::Finalized))
            } else {
                res matches BlockFinalityStep::HeightOf(x) && x == h
            },
        },
{
    match last_header_hash {
        None => BlockFinalityStep::Done(None),
        Some(h) => {
            if bytes32_eq(&h, &final_hash) {
                BlockFinalityStep::Done(Some(TFLBlockFinality::Finalized))
            } else {
                BlockFinalityStep::HeightOf(h)
            }
        },
    }
}

/// The move after the height of the last header was looked up: at or above
/// the final height the block is on a side chain; below it the walk goes on
/// from that header.
pub fn block_finality_after_height(check_hash: [u8; 32], check_height: Option<u32>, final_height: u32) -> (res:
    BlockFinalityStep)
    ensures
        match check_height {
            None => res matches BlockFinalityStep::Done(None),
            Some(h) => if h >= final_height {
                res matches BlockFinalityStep::Done(Some(TFLBlockFinality::CantBeFinalized))
            } else {
                res matches BlockFinalityStep::FindHeadersFrom(x) && x == check_hash
            },
        },
{
    match check_height {
        None => BlockFinalityStep::Done(None),
        Some(h) => {
            if h >= final_height {
                BlockFinalityStep::Done(Some(TFLBlockFinality::CantBeFinalized))
            } else {
                BlockFinalityStep::FindHeadersFrom(check_hash)
            }
        },
    }
}

/// The finality of a transaction, given the height of its block as looked
/// up and the final block.
pub fn tx_finality_status(tx_height: Option<u32>, final_block: Option<(u32, [u8; 32])>) -> (res: Result<
    Option<TFLBlockFinality>,
    TFLServiceError,
>)
    ensures
        match (tx_height, final_block) {
            (None, _) => res matches Ok(None),
            (Some(_), None) => res matches Err(e) && e matches TFLServiceError::Misc(m) && m@
                == no_final_block_text(),
            (Some(t), Some(f)) => if t <= f.0 {
                res matches Ok(Some(TFLBlockFinality::Finalized))
            } else {
                res matches Ok(Some(TFLBlockFinality::NotYetFinalized))
            },
        },
{
    match tx_height {
        None => Ok(None),
        Some(t) => match final_block {
            None => Err(no_final_block_error()),
            Some((final_height, _)) => {
                if t <= final_height {
                    Ok(Some(TFLBlockFinality::Finalized))
                } else {
                    Ok(Some(TFLBlockFinality::NotYetFinalized))
                }
            },
        },
    }
}

// ---------------------------------------------------------------------------
// The main loop
// ---------------------------------------------------------------------------

/// Where the main loop takes the final block from.
#[derive(Clone, Copy, Debug)]
pub enum FinalBlockSource {
    /// This one.
    Known(Option<(u32, [u8; 32])>),
    /// The deepest block of the best chain's locator, looked up by the caller.
    ReorgLookup,
}

/// A change of the final block: the blocks from `start_hash` up to
/// `new_final_hash` are to be walked and announced.
#[derive(Clone, Copy, Debug)]
pub struct FinalChange {
    /// Where the walk starts: the previous final block, or the new one.
    pub start_hash: [u8; 32],
    /// The new final block.
    pub new_final_hash: [u8; 32],
}

/// How far the final block lags the PoW tip.
#[derive(Clone, Copy, Debug, PartialEq, Eq)]
pub enum FinalityGap {
    /// The tip is this many blocks below the final block.
    TipBelowFinal(u32),
    /// Finality lags the tip by this many blocks, more than `MAX_FINALITY_LAG`.
    FallingBehind(u32),
    /// Finality lags the tip by no more than `MAX_FINALITY_LAG` blocks.
    WithinBound,
}

/// The lag of finality behind the tip above which the main loop warns.
pub const MAX_FINALITY_LAG: u32 = 512;

/// The main loop's memory of the last iteration.
#[derive(Clone, Copy, Debug)]
pub struct TFLMainLoop {
    /// The PoW tip seen last, as (height, hash).
    pub current_bc_tip: Option<(u32, [u8; 32])>,
    /// The final block seen last, as (height, hash).
    pub current_bc_final: Option<(u32, [u8; 32])>,
}

impl TFLMainLoop {
    /// The main loop before its first iteration.
    pub fn new() -> (res: Self)
        ensures
            res.current_bc_tip is None,
            res.current_bc_final is None,
    {
        TFLMainLoop { current_bc_tip: None, current_bc_final: None }
    }

    /// Where this iteration's final block comes from: the one set by a
    /// request if any; else, when the tip changed, a fresh lookup; else the
    /// one of the last iteration.
    pub fn final_block_source(
        &self,
        latest_final_block: Option<(u32, [u8; 32])>,
        new_tip: Option<(u32, [u8; 32])>,
    ) -> (res: FinalBlockSource)
        ensures
            latest_final_block is Some ==> res == FinalBlockSource::Known(latest_final_block),
            latest_final_block is None && new_tip != self.current_bc_tip ==> res
                == FinalBlockSource::ReorgLookup,
            latest_final_block is None && new_tip == self.current_bc_tip ==> res
                == FinalBlockSource::Known(self.current_bc_final),
    {
        if latest_final_block.is_some() {
            FinalBlockSource::Known(latest_final_block)
        } else if !height_hash_eq(&new_tip, &self.current_bc_tip) {
            FinalBlockSource::ReorgLookup
        } else {
            FinalBlockSource::Known(self.current_bc_final)
        }
    }

    /// The change of the final block in this iteration, if any: the walk
    /// starts at the previous final block when there was one.
    pub fn final_change(&self, new_final: Option<(u32, [u8; 32])>) -> (res: Option<FinalChange>)
        ensures
            (new_final == self.current_bc_final || new_final is None) ==> res is None,
            new_final matches Some(nf) ==> (new_final != self.current_bc_final ==> (res matches Some(
                c) && c.new_final_hash == nf.1 && c.start_hash == match self.current_bc_final {
                Some(p) => p.1,
                None => nf.1,
            })),
    {
        if height_hash_eq(&new_final, &self.current_bc_final) {
            return None;
        }
        match new_final {
            None => None,
            Some((_, new_final_hash)) => {
                let start_hash = match self.current_bc_final {
                    Some((_, prev_hash)) => prev_hash,
                    None => new_final_hash,
                };
                Some(FinalChange { start_hash, new_final_hash })
            },
        }
    }

    /// Remembers this iteration's tip and final block.
    pub fn end_iteration(&mut self, new_tip: Option<(u32, [u8; 32])>, new_final: Option<(u32, [u8; 32])>)
        ensures
            final(self).current_bc_tip == new_tip,
            final(self).current_bc_final == new_final,
    {
        self.current_bc_tip = new_tip;
        self.current_bc_final = new_final;
    }
}

/// The blocks of a newly final sequence that are announced: all but the
/// previous final block, which was announced before.
pub open spec fn announced_blocks(seq: Seq<[u8; 32]>, prev_final: Option<(u32, [u8; 32])>) -> Seq<
    [u8; 32],
> {
    match prev_final {
        None => seq,
        Some(p) => seq.filter(|h: [u8; 32]| h != p.1),
    }
}

/// Picks the blocks of a newly final sequence to announce.
pub fn blocks_to_announce(seq: &Vec<[u8; 32]>, prev_final: Option<(u32, [u8; 32])>) -> (res: Vec<
    [u8; 32],
>)
    ensures
        res@ == announced_blocks(seq@, prev_final),
{
    let mut out: Vec<[u8; 32]> = Vec::new();
    let mut i: usize = 0;
    while i < seq.len()
        invariant
            i <= seq@.len(),
            out@ == announced_blocks(seq@.take(i as int), prev_final),
        decreases seq@.len() - i,
    {
        let h = seq[i];
        let skip = match prev_final {
            Some((_, prev_hash)) => bytes32_eq(&prev_hash, &h),
            None => false,
        };
        if !skip {
            out.push(h);
        }
        proof {
            let t = seq@.take(i as int);
            assert(seq@.take(i + 1) =~= t.push(h));
            match prev_final {
                Some(p) => {
                    t.lemma_filter_push(h, |x: [u8; 32]| x != p.1);
                },
                None => {},
            }
        }
        i = i + 1;
    }
    assert(seq@.take(seq@.len() as int) =~= seq@);
    out
}

/// How far finality lags the tip, when both are known.
pub fn finality_gap(tip: Option<(u32, [u8; 32])>, final_block: Option<(u32, [u8; 32])>) -> (res: Option<
    FinalityGap,
>)
    ensures
        match (tip, final_block) {
            (Some(t), Some(f)) => if t.0 < f.0 {
                res == Some(FinalityGap::TipBelowFinal((f.0 - t.0) as u32))
            } else if t.0 - f.0 > MAX_FINALITY_LAG {
                res == Some(FinalityGap::FallingBehind((t.0 - f.0) as u32))
            } else {
                res == Some(FinalityGap::WithinBound)
            },
            _ => res is None,
        },
{
    match (tip, final_block) {
        (Some((tip_height, _)), Some((final_height, _))) => {
            if tip_height < final_height {
                Some(FinalityGap::TipBelowFinal(final_height - tip_height))
            } else {
                let behind = tip_height - final_height;
                if behind > MAX_FINALITY_LAG {
                    Some(FinalityGap::FallingBehind(behind))
                } else {
                    Some(FinalityGap::WithinBound)
                }
            }
        },
        _ => None,
    }
}

// ---------------------------------------------------------------------------
// Walking a sequence of best-chain blocks
// ---------------------------------------------------------------------------

/// The walk over the best chain from a start block up to a final block,
/// fed chunk by chunk with the hashes that follow the last one known.
#[derive(Clone, Debug)]
pub struct BlockSequenceWalk {
    /// The hashes collected so far, in chain order.
    pub hashes: Vec<[u8; 32]>,
    /// The hash after which the next chunk is asked for.
    pub next_known: [u8; 32],
    /// Whether the walk is over.
    pub done: bool,
    /// The hash that the first answer must begin with, when the start
    /// block itself is collected.
    pub first_hash: Option<[u8; 32]>,
}

impl BlockSequenceWalk {
    /// Starts a walk, given the start block's (height, previous hash) as
    /// looked up and the final block's height as looked up; `None` when a
    /// lookup failed or the final block is below the start.  With
    /// `include_start_hash` the walk begins after the start block's parent,
    /// so that the start block itself is collected.
    pub fn start(
        start_hash: [u8; 32],
        start_lookup: Option<(u32, [u8; 32])>,
        include_start_hash: bool,
        final_height: Option<u32>,
    ) -> (res: Option<Self>)
        ensures
            match (start_lookup, final_height) {
                (Some(s), Some(f)) => if f < s.0 {
                    res is None
                } else {
                    res matches Some(w) && w.hashes@.len() == 0 && !w.done && w.next_known == (
                    if include_start_hash {
                        s.1
                    } else {
                        start_hash
                    }) && w.first_hash == (if include_start_hash {
                        Some(start_hash)
                    } else {
                        None
                    })
                },
                _ => res is None,
            },
    {
        let (start_height, prev_hash) = match start_lookup {
            Some(s) => s,
            None => {
                return None;
            },
        };
        let final_height = match final_height {
            Some(f) => f,
            None => {
                return None;
            },
        };
        if final_height < start_height {
            return None;
        }
        let next_known = if include_start_hash {
            prev_hash
        } else {
            start_hash
        };
        let first_hash = if include_start_hash {
            Some(start_hash)
        } else {
            None
        };
        Some(BlockSequenceWalk { hashes: Vec::new(), next_known, done: false, first_hash })
    }

    /// Whether the walk, when it collects the start block, has it first:
    /// then the hashes collected so far begin with it.
    pub open spec fn starts_right(&self) -> bool {
        self.first_hash matches Some(h) ==> (self.hashes@.len() > 0 ==> self.hashes@[0] == h)
    }

    /// Whether an answer can be fed: the first answer, when the start block
    /// is collected, must begin with the start block's hash (the node's
    /// answer is held to that; another first hash is a fault).
    pub open spec fn accepts_chunk(&self, chunk: Option<Seq<[u8; 32]>>) -> bool {
        match (chunk, self.first_hash) {
            (Some(c), Some(h)) => (self.hashes@.len() == 0 && c.len() > 0) ==> c[0] == h,
            _ => true,
        }
    }

    /// Whether an answer can be fed, as `accepts_chunk` says.
    pub fn chunk_is_expected(&self, chunk: &Option<Vec<[u8; 32]>>) -> (res: bool)
        ensures
            res == self.accepts_chunk(
                match chunk {
                    Some(c) => Some(c@),
                    None => None,
                },
            ),
    {
        match (chunk, &self.first_hash) {
            (Some(c), Some(h)) => {
                if self.hashes.len() == 0 && c.len() > 0 {
                    bytes32_eq(&c[0], h)
                } else {
                    true
                }
            },
            _ => true,
        }
    }

    /// Feeds the answer to the request for hashes after `next_known`:
    /// `None` when the request failed.  A failure or an empty chunk ends the
    /// walk; a chunk is appended and its last hash is where the next one
    /// starts.
    pub fn feed_chunk(&mut self, chunk: Option<Vec<[u8; 32]>>)
        requires
            !old(self).done,
            old(self).starts_right(),
            old(self).accepts_chunk(
                match chunk {
                    Some(c) => Some(c@),
                    None => None,
                },
            ),
        ensures
            final(self).starts_right(),
            final(self).first_hash == old(self).first_hash,
            match chunk {
                Some(c) => if c@.len() > 0 {
                    &&& final(self).hashes@ == old(self).hashes@ + c@
                    &&& final(self).next_known == c@.last()
                    &&& !final(self).done
                } else {
                    &&& final(self).hashes@ == old(self).hashes@
                    &&& final(self).next_known == old(self).next_known
                    &&& final(self).done
                },
                None => {
                    &&& final(self).hashes@ == old(self).hashes@
                    &&& final(self).next_known == old(self).next_known
                    &&& final(self).done
                },
            },
    {
        match chunk {
            Some(c) => {
                if c.len() == 0 {
                    self.done = true;
                } else {
                    let last = c[c.len() - 1];
                    let mut i: usize = 0;
                    let ghost start = self.hashes@;
                    let ghost first = self.first_hash;
                    while i < c.len()
                        invariant
                            i <= c@.len(),
                            self.first_hash == first,
                            self.hashes@ == start + c@.take(i as int),
                            !self.done,
                            c@.len() > 0,
                            last == c@.last(),
                        decreases c@.len() - i,
                    {
                        self.hashes.push(c[i]);
                        i = i + 1;
                        assert(c@.take(i as int) =~= c@.take(i - 1).push(c@[i - 1]));
                    }
                    assert(c@.take(c@.len() as int) =~= c@);
                    assert(start.len() > 0 ==> self.hashes@[0] == start[0]);
                    assert(start.len() == 0 ==> self.hashes@[0] == c@[0]);
                    self.next_known = last;
                }
            },
            None => {
                self.done = true;
            },
        }
    }
}

// ---------------------------------------------------------------------------
// The first validator set
// ---------------------------------------------------------------------------

/// The address a node listens on when none is configured.
pub open spec fn default_public_address() -> Seq<char> {
    "/ip4/127.0.0.1/udp/45869/quic-v1"@
}

/// The addresses whose keys make up the validator set the service starts
/// with, each with voting power 1: the configured BFT peers, or, when there
/// are none, this node's own public address.
pub fn initial_validator_addresses(peers: &Vec<String>, public_address: &Option<String>) -> (res:
    Vec<String>)
    ensures
        peers@.len() > 0 ==> res@.len() == peers@.len() && forall|i: int|
            0 <= i < peers@.len() ==> (#[trigger] res@[i])@ == peers@[i]@,
        peers@.len() == 0 ==> res@.len() == 1 && res@[0]@ == match public_address {
            Some(a) => a@,
            None => default_public_address(),
        },
{
    let mut out: Vec<String> = Vec::new();
    let mut i: usize = 0;
    while i < peers.len()
        invariant
            i <= peers@.len(),
            out@.len() == i,
            forall|j: int| 0 <= j < i ==> (#[trigger] out@[j])@ == peers@[j]@,
        decreases peers@.len() - i,
    {
        out.push(peers[i].clone());
        i = i + 1;
    }
    if out.len() == 0 {
        let addr = match public_address {
            Some(a) => a.clone(),
            None => "/ip4/127.0.0.1/udp/45869/quic-v1".to_owned(),
        };
        out.push(addr);
    }
    out
}

} // verus!
