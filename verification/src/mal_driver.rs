//! The decisions of the node's BFT engine driver: which proposals it keeps
//! for the current height, what it answers the engine, and how a decision
//! moves it to the next height.  The caller talks to the engine and the
//! node, and hands every answer back here.

use vstd::prelude::*;
use vstd::bytes::*;
use crate::bytes::append_bytes;
use crate::bytes::bytes32_eq;
use crate::chain::{encode_bft_block, parse_bft_block, BftBlock};
use crate::crypto::{blake3_of, ed25519_s_canonical, ed25519_signature_of, ed25519_verifies};
use crate::mal_system::{
    certificate_has_noncanonical_signature, certificate_signatures_verify,
    is_certificate_fat_pointer, FatPointerToBftBlock2, MalCommitCertificate,
};
use crate::malctx::{
    proposal_signing_hash, proposal_signing_message, MalEd25519Provider, MalHeight,
    MalPublicKey2, MalRound, MalValue,
};

verus! {

/// The driver's view of the engine: where it is, and whether it must stop.
#[derive(Clone, Copy, Debug)]
pub struct RunningMalachite {
    /// Set when the driver is to stop the engine.
    pub should_terminate: bool,
    /// The height being decided.
    pub height: u64,
    /// The round being run.
    pub round: u32,
}

impl RunningMalachite {
    /// The engine started at `at_height`, round 0.
    pub fn new(at_height: u64) -> (res: RunningMalachite)
        ensures
            !res.should_terminate,
            res.height == at_height,
            res.round == 0,
    {
        RunningMalachite { should_terminate: false, height: at_height, round: 0 }
    }
}

/// Whether a proposed value is valid.
#[derive(Clone, Copy, Debug, PartialEq, Eq, Structural)]
pub enum MalValidity {
    Valid,
    Invalid,
}

/// A value proposed for a height and round.
#[derive(Debug)]
pub struct MalProposedValue {
    pub height: MalHeight,
    pub round: MalRound,
    pub valid_round: MalRound,
    pub proposer: MalPublicKey2,
    pub value: MalValue,
    pub validity: MalValidity,
}

/// A proposed value as plain values.
pub struct ProposedValueView {
    pub height: u64,
    pub round: MalRound,
    pub valid_round: MalRound,
    pub proposer: MalPublicKey2,
    pub value: Seq<u8>,
    pub validity: MalValidity,
}

impl View for MalProposedValue {
    type V = ProposedValueView;

    open spec fn view(&self) -> ProposedValueView {
        ProposedValueView {
            height: self.height@,
            round: self.round,
            valid_round: self.valid_round,
            proposer: self.proposer,
            value: self.value.value_bytes@,
            validity: self.validity,
        }
    }
}

/// A copy of a value's bytes.
fn copy_value(v: &MalValue) -> (res: MalValue)
    ensures
        res.value_bytes@ == v.value_bytes@,
{
    let mut bytes: Vec<u8> = Vec::new();
    append_bytes(&mut bytes, v.value_bytes.as_slice());
    MalValue { value_bytes: bytes }
}

impl MalProposedValue {
    /// A copy of this proposed value.
    pub fn copy(&self) -> (res: MalProposedValue)
        ensures
            res@ == self@,
    {
        MalProposedValue {
            height: self.height,
            round: self.round,
            valid_round: self.valid_round,
            proposer: self.proposer,
            value: copy_value(&self.value),
            validity: self.validity,
        }
    }
}

/// A value that this node proposes, as handed to the engine.
#[derive(Debug)]
pub struct MalLocallyProposedValue {
    pub height: MalHeight,
    pub round: MalRound,
    pub value: MalValue,
}

/// A proposal as streamed to the other finalizers: the value's bytes,
/// signed by the proposer over its height, round and bytes.
#[derive(Debug)]
pub struct MalStreamedProposal {
    pub height: MalHeight,
    pub round: MalRound,
    pub pol_round: MalRound,
    pub proposer: [u8; 32],
    pub data_bytes: Vec<u8>,
    pub signature: [u8; 64],
}

impl MalStreamedProposal {
    /// A streamed proposal from its parts.
    pub fn new(
        height: MalHeight,
        round: MalRound,
        pol_round: MalRound,
        proposer: [u8; 32],
        data_bytes: Vec<u8>,
        signature: [u8; 64],
    ) -> (res: MalStreamedProposal)
        ensures
            res.height == height,
            res.round == round,
            res.pol_round == pol_round,
            res.proposer == proposer,
            res.data_bytes@ == data_bytes@,
            res.signature == signature,
    {
        MalStreamedProposal { height, round, pol_round, proposer, data_bytes, signature }
    }

    /// A proposal is streamed as a single part, so each part is the first.
    pub fn is_first(&self) -> (res: bool)
        ensures
            res,
    {
        true
    }

    /// A proposal is streamed as a single part, so each part is the last.
    pub fn is_last(&self) -> (res: bool)
        ensures
            res,
    {
        true
    }
}

/// Why a vote extension was refused.
#[derive(Clone, Copy, Debug, PartialEq, Eq, Structural)]
pub enum MalVoteExtensionError {
    InvalidVoteExtension,
}

/// The proposal kept for round `r` in `slots`, if any.
pub open spec fn slot_at(slots: Seq<Option<ProposedValueView>>, r: int) -> Option<ProposedValueView> {
    if 0 <= r < slots.len() {
        slots[r]
    } else {
        None
    }
}

/// `slots` with `p` kept for round `r`.
pub open spec fn slots_with(slots: Seq<Option<ProposedValueView>>, r: int, p: ProposedValueView) -> Seq<
    Option<ProposedValueView>,
> {
    let grown = if slots.len() <= r {
        slots + Seq::new((r + 1 - slots.len()) as nat, |i: int| None::<ProposedValueView>)
    } else {
        slots
    };
    grown.update(r, Some(p))
}

/// What the driver answers when the engine asks for a value to propose.
#[derive(Debug)]
pub enum GetValueDecision {
    /// A block is still waiting to be pushed to the node: no answer.
    Busy,
    /// Send this proposal again: it was built or seen for this round before.
    Replay(MalProposedValue),
    /// Ask the node for a new block and hand it to `propose_new_block`.
    NeedNewBlock,
}

/// The kinds of engine messages, each with its bit in the driver's message
/// and error flags.
#[derive(Clone, Copy, Debug, PartialEq, Eq, Structural)]
pub enum BFTMsgFlag {
    ConsensusReady,
    GetHistoryMinHeight,
    StartedRound,
    GetValue,
    GetDecidedValue,
    ProcessSyncedValue,
    GetValidatorSet,
    Decided,
    ExtendVote,
    VerifyVoteExtension,
    ReceivedProposalPart,
}

/// The bit of a message kind in the flags.
pub open spec fn flag_bit(f: BFTMsgFlag) -> u64 {
    match f {
        BFTMsgFlag::ConsensusReady => 1u64,
        BFTMsgFlag::GetHistoryMinHeight => 2u64,
        BFTMsgFlag::StartedRound => 4u64,
        BFTMsgFlag::GetValue => 8u64,
        BFTMsgFlag::GetDecidedValue => 16u64,
        BFTMsgFlag::ProcessSyncedValue => 32u64,
        BFTMsgFlag::GetValidatorSet => 64u64,
        BFTMsgFlag::Decided => 128u64,
        BFTMsgFlag::ExtendVote => 256u64,
        BFTMsgFlag::VerifyVoteExtension => 512u64,
        BFTMsgFlag::ReceivedProposalPart => 1024u64,
    }
}

/// The bit of a message kind in the flags.
pub fn msg_flag_bit(f: BFTMsgFlag) -> (res: u64)
    ensures
        res == flag_bit(f),
{
    match f {
        BFTMsgFlag::ConsensusReady => 1u64,
        BFTMsgFlag::GetHistoryMinHeight => 2u64,
        BFTMsgFlag::StartedRound => 4u64,
        BFTMsgFlag::GetValue => 8u64,
        BFTMsgFlag::GetDecidedValue => 16u64,
        BFTMsgFlag::ProcessSyncedValue => 32u64,
        BFTMsgFlag::GetValidatorSet => 64u64,
        BFTMsgFlag::Decided => 128u64,
        BFTMsgFlag::ExtendVote => 256u64,
        BFTMsgFlag::VerifyVoteExtension => 512u64,
        BFTMsgFlag::ReceivedProposalPart => 1024u64,
    }
}

/// What a streamed proposal message carries.
#[derive(Debug)]
pub enum StreamContent {
    /// The proposal.
    Data(MalStreamedProposal),
    /// The end of the stream.
    Fin,
}

/// What the driver makes of a proposal part from the network.
#[derive(Debug)]
pub enum ProposalPartDecision {
    /// Not a proposal, for another height, outside the round window, or not
    /// signed by its proposer: the engine gets no value and nothing is kept.
    Refused,
    /// Signed, in the window, but its bytes are not a BFT block.
    Undecodable,
    /// Signed, in the window: the decoded block, to be validated by the node
    /// and kept with `store_received_proposal`.
    Block(BftBlock),
}

/// Why a decision of the engine was not taken.
#[derive(Clone, Copy, Debug, PartialEq, Eq, Structural)]
pub enum DecidedError {
    /// The certificate's signatures were not accepted as a batch.
    SignaturesRejected,
    /// The kept proposal is not the value the certificate names.
    ValueIdMismatch,
    /// The kept proposal's bytes are not a BFT block.
    UndecodableValue,
}

/// The driver's state for the current height.
pub struct MalachiteDriver {
    /// Where the engine is.
    pub running: RunningMalachite,
    /// The proposals built or seen at this height, by round.
    pub proposals: Vec<Option<MalProposedValue>>,
    /// The decided block, with its fat pointer, that the node has not yet
    /// accepted.
    pub pending_block: Option<(BftBlock, FatPointerToBftBlock2)>,
    /// The kinds of messages handled, as bits.
    pub msg_flags: u64,
    /// The kinds of messages that were refused or failed, as bits.
    pub err_flags: u64,
}

impl MalachiteDriver {
    /// The proposals kept at this height, by round.
    pub open spec fn slots(&self) -> Seq<Option<ProposedValueView>> {
        self.proposals@.map_values(
            |o: Option<MalProposedValue>|
                match o {
                    Some(p) => Some(p@),
                    None => None,
                },
        )
    }

    /// The invariant: every kept proposal belongs to the current height and
    /// to the round it is kept for.
    pub open spec fn wf(&self) -> bool {
        forall|r: int|
            #![trigger slot_at(self.slots(), r)]
            slot_at(self.slots(), r) matches Some(p) ==> p.height == self.running.height && p.round
                == MalRound::Number(r as u32) && 0 <= r <= u32::MAX
    }

    /// A driver for an engine started at `at_height`.
    pub fn new(at_height: u64) -> (res: MalachiteDriver)
        ensures
            res.wf(),
            !res.running.should_terminate,
            res.running.height == at_height,
            res.running.round == 0,
            res.slots().len() == 0,
            res.pending_block is None,
            res.msg_flags == 0,
            res.err_flags == 0,
    {
        let res = MalachiteDriver {
            running: RunningMalachite { should_terminate: false, height: at_height, round: 0 },
            proposals: Vec::new(),
            pending_block: None,
            msg_flags: 0,
            err_flags: 0,
        };
        assert(res.slots() =~= Seq::<Option<ProposedValueView>>::empty());
        res
    }

    /// A copy of the proposal kept for `round`, if any.
    pub fn proposal_at(&self, round: u32) -> (res: Option<MalProposedValue>)
        ensures
            match res {
                Some(p) => slot_at(self.slots(), round as int) == Some(p@),
                None => slot_at(self.slots(), round as int) is None,
            },
    {
        let r = round as usize;
        if r < self.proposals.len() {
            match &self.proposals[r] {
                Some(p) => {
                    assert(self.slots()[r as int] == Some(p@));
                    Some(p.copy())
                },
                None => {
                    assert(self.slots()[r as int] is None);
                    None
                },
            }
        } else {
            None
        }
    }

    /// Keeps `p` as the proposal for `round`, replacing any other.
    fn remember_proposal(&mut self, round: u32, p: MalProposedValue)
        requires
            old(self).wf(),
            p@.height == old(self).running.height,
            p@.round == MalRound::Number(round),
        ensures
            final(self).slots() == slots_with(old(self).slots(), round as int, p@),
            final(self).running == old(self).running,
            final(self).pending_block == old(self).pending_block,
            final(self).msg_flags == old(self).msg_flags,
            final(self).err_flags == old(self).err_flags,
            final(self).wf(),
    {
        let ghost old_slots = self.slots();
        let r = round as usize;
        while self.proposals.len() <= r
            invariant
                self.running == old(self).running,
                self.pending_block == old(self).pending_block,
                self.msg_flags == old(self).msg_flags,
                self.err_flags == old(self).err_flags,
                self.proposals@.len() >= old_slots.len(),
                self.proposals@.len() == old_slots.len() || self.proposals@.len() <= r + 1,
                self.slots() == old_slots + Seq::new(
                    (self.proposals@.len() - old_slots.len()) as nat,
                    |i: int| None::<ProposedValueView>,
                ),
            decreases r + 1 - self.proposals@.len(),
        {
            let ghost before = self.slots();
            let ghost before_props = self.proposals@;
            self.proposals.push(None);
            assert(self.proposals@ == before_props.push(None));
            let ghost target = old_slots + Seq::new(
                (self.proposals@.len() - old_slots.len()) as nat,
                |i: int| None::<ProposedValueView>,
            );
            assert forall|i: int| 0 <= i < self.slots().len() implies self.slots()[i] == target[i] by {
                if i < before_props.len() {
                    assert(self.proposals@[i] == before_props[i]);
                    assert(before[i] == target[i]);
                }
            }
            assert(self.slots() =~= target);
        }
        let ghost grown = self.slots();
        let ghost pv = p@;
        self.proposals.set(r, Some(p));
        assert(self.slots() =~= grown.update(r as int, Some(pv)));
        assert(grown =~= (if old_slots.len() <= r {
            old_slots + Seq::new((r + 1 - old_slots.len()) as nat, |i: int| None::<ProposedValueView>)
        } else {
            old_slots
        }));
        assert forall|q: int| #![trigger slot_at(self.slots(), q)]
            slot_at(self.slots(), q) is Some implies slot_at(self.slots(), q)->0.height
                == self.running.height && slot_at(self.slots(), q)->0.round == MalRound::Number(
                q as u32) && 0 <= q <= u32::MAX by {
            if q != r {
                assert(slot_at(self.slots(), q) == slot_at(old_slots, q));
            }
        }
    }

    /// The engine started a round at the driver's height: the driver moves
    /// to it and hands back the proposal already kept for it, if any.
    pub fn started_round(&mut self, height: MalHeight, round: u32) -> (res: Option<
        MalProposedValue,
    >)
        requires
            old(self).wf(),
            height@ == old(self).running.height,
        ensures
            final(self).wf(),
            final(self).running.round == round,
            final(self).running.height == old(self).running.height,
            final(self).running.should_terminate == old(self).running.should_terminate,
            final(self).slots() == old(self).slots(),
            final(self).pending_block == old(self).pending_block,
            final(self).msg_flags == old(self).msg_flags | flag_bit(BFTMsgFlag::StartedRound),
            final(self).err_flags == old(self).err_flags,
            match res {
                Some(p) => slot_at(old(self).slots(), round as int) == Some(p@),
                None => slot_at(old(self).slots(), round as int) is None,
            },
    {
        self.msg_flags = self.msg_flags | msg_flag_bit(BFTMsgFlag::StartedRound);
        self.running.round = round;
        self.proposal_at(round)
    }

    /// The engine asks for a value to propose at the driver's height: none
    /// while a decided block waits; the kept one when there is one; else a
    /// new block is needed.
    pub fn get_value(&self, height: MalHeight, round: u32) -> (res: GetValueDecision)
        requires
            self.wf(),
            height@ == self.running.height,
        ensures
            self.pending_block is Some ==> res is Busy,
            self.pending_block is None ==> match res {
                GetValueDecision::Replay(p) => slot_at(self.slots(), round as int) == Some(p@)
                    && p@.height == height@ && p@.round == MalRound::Number(round),
                GetValueDecision::NeedNewBlock => slot_at(self.slots(), round as int) is None,
                GetValueDecision::Busy => false,
            },
    {
        if self.pending_block.is_some() {
            return GetValueDecision::Busy;
        }
        match self.proposal_at(round) {
            Some(p) => GetValueDecision::Replay(p),
            None => GetValueDecision::NeedNewBlock,
        }
    }

    /// Keeps a block that this node built for `round` as its valid proposal,
    /// with no proof-of-lock round, and returns what goes to the engine.
    pub fn propose_new_block(
        &mut self,
        height: MalHeight,
        round: u32,
        my_public_key: [u8; 32],
        block: BftBlock,
    ) -> (res: MalLocallyProposedValue)
        requires
            old(self).wf(),
            height@ == old(self).running.height,
            block.headers@.len() <= u32::MAX,
        ensures
            final(self).wf(),
            res.height == height,
            res.round == MalRound::Number(round),
            res.value.value_bytes@ == encode_bft_block(block@),
            final(self).slots() == slots_with(
                old(self).slots(),
                round as int,
                ProposedValueView {
                    height: height@,
                    round: MalRound::Number(round),
                    valid_round: MalRound::Nil,
                    proposer: MalPublicKey2(my_public_key),
                    value: encode_bft_block(block@),
                    validity: MalValidity::Valid,
                },
            ),
            final(self).running == old(self).running,
            final(self).pending_block == old(self).pending_block,
    {
        let value = MalValue::new_block(block);
        let kept = MalProposedValue {
            height,
            round: MalRound::new(round),
            valid_round: MalRound::Nil,
            proposer: MalPublicKey2(my_public_key),
            value: copy_value(&value),
            validity: MalValidity::Valid,
        };
        self.remember_proposal(round, kept);
        MalLocallyProposedValue { height, round: MalRound::new(round), value }
    }

    /// A value synced from a peer for `height` and `round`: valid and kept,
    /// and the driver moves to its round, when it is for the driver's
    /// height; else invalid and not kept.
    pub fn process_synced_value(
        &mut self,
        height: MalHeight,
        round: MalRound,
        proposer: MalPublicKey2,
        value: MalValue,
    ) -> (res: MalProposedValue)
        requires
            old(self).wf(),
            height@ == old(self).running.height ==> round is Number,
        ensures
            final(self).wf(),
            res@.height == height@,
            res@.round == round,
            res@.valid_round == MalRound::Nil,
            res@.proposer == proposer,
            res@.value == value.value_bytes@,
            final(self).pending_block == old(self).pending_block,
            final(self).running.height == old(self).running.height,
            final(self).running.should_terminate == old(self).running.should_terminate,
            final(self).msg_flags == old(self).msg_flags | flag_bit(BFTMsgFlag::ProcessSyncedValue),
            height@ != old(self).running.height ==> {
                &&& res@.validity == MalValidity::Invalid
                &&& final(self).slots() == old(self).slots()
                &&& final(self).running == old(self).running
                &&& final(self).err_flags == old(self).err_flags | flag_bit(
                    BFTMsgFlag::ProcessSyncedValue,
                )
            },
            height@ == old(self).running.height ==> final(self).err_flags == old(self).err_flags,
            height@ == old(self).running.height ==> {
                &&& res@.validity == MalValidity::Valid
                &&& round matches MalRound::Number(r)
                &&& final(self).running.round == r
                &&& final(self).slots() == slots_with(old(self).slots(), r as int, res@)
            },
    {
        let bit = msg_flag_bit(BFTMsgFlag::ProcessSyncedValue);
        self.msg_flags = self.msg_flags | bit;
        if height.as_u64() != self.running.height {
            self.err_flags = self.err_flags | bit;
            return MalProposedValue {
                height,
                round,
                valid_round: MalRound::Nil,
                proposer,
                value,
                validity: MalValidity::Invalid,
            };
        }
        let r = match round {
            MalRound::Number(r) => r,
            MalRound::Nil => 0,
        };
        self.running.round = r;
        let res = MalProposedValue {
            height,
            round,
            valid_round: MalRound::Nil,
            proposer,
            value,
            validity: MalValidity::Valid,
        };
        self.remember_proposal(r, res.copy());
        res
    }

    /// Whether the engine asked for the validator set of the driver's height,
    /// the only one the driver answers for.
    pub fn answers_validator_set(&self, height: MalHeight) -> (res: bool)
        ensures
            res == (height@ == self.running.height),
    {
        height.as_u64() == self.running.height
    }

    /// Whether a streamed proposal part is for the driver's height and for
    /// its round or the next one (`Nil` counting as -1).
    pub fn proposal_part_in_window(&self, part: &MalStreamedProposal) -> (res: bool)
        ensures
            res == (part.height@ == self.running.height && self.running.round
                <= part.round.spec_as_i64() <= self.running.round + 1),
    {
        let proposal_round = part.round.as_i64();
        let round = self.running.round as i64;
        part.height.as_u64() == self.running.height && round <= proposal_round && proposal_round
            <= round + 1
    }

    /// Keeps a proposal received from the network, for the driver's height
    /// and within its round window, as the proposal for its round; the block
    /// decoded from its bytes is encoded again as the value.
    pub fn store_received_proposal(
        &mut self,
        part: &MalStreamedProposal,
        block: BftBlock,
        validity: MalValidity,
    ) -> (res: MalProposedValue)
        requires
            old(self).wf(),
            part.height@ == old(self).running.height,
            old(self).running.round <= part.round.spec_as_i64() <= old(self).running.round + 1,
            block.headers@.len() <= u32::MAX,
        ensures
            final(self).wf(),
            res@ == (ProposedValueView {
                height: part.height@,
                round: part.round,
                valid_round: part.pol_round,
                proposer: MalPublicKey2(part.proposer),
                value: encode_bft_block(block@),
                validity,
            }),
            part.round matches MalRound::Number(r) && final(self).slots() == slots_with(
                old(self).slots(),
                r as int,
                res@,
            ),
            final(self).running == old(self).running,
            final(self).pending_block == old(self).pending_block,
            final(self).msg_flags == old(self).msg_flags,
            validity == MalValidity::Invalid ==> final(self).err_flags == old(self).err_flags
                | flag_bit(BFTMsgFlag::ReceivedProposalPart),
            validity == MalValidity::Valid ==> final(self).err_flags == old(self).err_flags,
    {
        if validity == MalValidity::Invalid {
            self.err_flags = self.err_flags | msg_flag_bit(BFTMsgFlag::ReceivedProposalPart);
        }
        let r = match part.round {
            MalRound::Number(r) => r,
            MalRound::Nil => 0,
        };
        let value = MalProposedValue {
            height: part.height,
            round: part.round,
            valid_round: part.pol_round,
            proposer: MalPublicKey2(part.proposer),
            value: MalValue::new_block(block),
            validity,
        };
        self.remember_proposal(r, value.copy());
        value
    }

    /// The engine decided at the driver's height and round: the proposal
    /// kept for that round is taken, the decided block waits to be pushed
    /// to the node, and the driver moves to round 0 of the next height with
    /// no proposals kept.
    fn commit_decision(
        &mut self,
        certificate: &MalCommitCertificate,
        block: BftBlock,
        fat_pointer: FatPointerToBftBlock2,
    ) -> (res: MalProposedValue)
        requires
            old(self).wf(),
            certificate.height@ == old(self).running.height,
            certificate.round == MalRound::Number(old(self).running.round),
            slot_at(old(self).slots(), old(self).running.round as int) is Some,
            old(self).pending_block is None,
            old(self).running.height < u64::MAX,
        ensures
            final(self).wf(),
            slot_at(old(self).slots(), old(self).running.round as int) == Some(res@),
            final(self).running.height == old(self).running.height + 1,
            final(self).running.round == 0,
            final(self).running.should_terminate == old(self).running.should_terminate,
            final(self).slots().len() == 0,
            final(self).pending_block == Some((block, fat_pointer)),
            final(self).msg_flags == old(self).msg_flags,
            final(self).err_flags == old(self).err_flags,
    {
        let r = self.running.round as usize;
        let ghost slots = self.slots();
        assert(slots[r as int] is Some);
        let mut kept: Vec<Option<MalProposedValue>> = Vec::new();
        std::mem::swap(&mut kept, &mut self.proposals);
        assert(kept@.map_values(
            |o: Option<MalProposedValue>|
                match o {
                    Some(p) => Some(p@),
                    None => None,
                },
        )[r as int] == slots[r as int]);
        let taken = kept.remove(r);
        let decided = match taken {
            Some(p) => p,
            None => {
                assert(false);
                MalProposedValue {
                    height: certificate.height,
                    round: certificate.round,
                    valid_round: MalRound::Nil,
                    proposer: MalPublicKey2([0u8; 32]),
                    value: MalValue { value_bytes: Vec::new() },
                    validity: MalValidity::Invalid,
                }
            },
        };
        self.pending_block = Some((block, fat_pointer));
        self.running.height = self.running.height + 1;
        self.running.round = 0;
        assert(self.slots() =~= Seq::<Option<ProposedValueView>>::empty());
        decided
    }

    /// The bytes of the proposal kept for the current round.
    pub open spec fn kept_value(&self) -> Seq<u8> {
        slot_at(self.slots(), self.running.round as int)->0.value
    }

    /// Whether a proposal part is for the driver's height and for its round
    /// or the next one (`Nil` counting as -1).
    pub open spec fn in_round_window(&self, part: MalStreamedProposal) -> bool {
        part.height@ == self.running.height && self.running.round <= part.round.spec_as_i64()
            <= self.running.round + 1
    }

    /// Records that a message of kind `flag` was handled, and whether it
    /// was refused or failed.
    pub fn note_message(&mut self, flag: BFTMsgFlag, failed: bool)
        ensures
            final(self).msg_flags == old(self).msg_flags | flag_bit(flag),
            failed ==> final(self).err_flags == old(self).err_flags | flag_bit(flag),
            !failed ==> final(self).err_flags == old(self).err_flags,
            final(self).running == old(self).running,
            final(self).slots() == old(self).slots(),
            final(self).pending_block == old(self).pending_block,
            old(self).wf() ==> final(self).wf(),
    {
        let bit = msg_flag_bit(flag);
        self.msg_flags = self.msg_flags | bit;
        if failed {
            self.err_flags = self.err_flags | bit;
        }
    }

    /// A proposal part from the network: refused, with the error flag set
    /// and nothing kept, when it is not a proposal, is not for the driver's
    /// height and round window, or is not signed by its proposer over its
    /// height, round and bytes; otherwise its bytes decoded as a BFT block.
    pub fn on_proposal_part(&mut self, provider: &MalEd25519Provider, content: &StreamContent) -> (res:
        ProposalPartDecision)
        requires
            old(self).wf(),
        ensures
            final(self).wf(),
            final(self).running == old(self).running,
            final(self).slots() == old(self).slots(),
            final(self).pending_block == old(self).pending_block,
            final(self).msg_flags == old(self).msg_flags | flag_bit(BFTMsgFlag::ReceivedProposalPart),
            match content {
                StreamContent::Fin => {
                    &&& res is Refused
                    &&& final(self).err_flags == old(self).err_flags | flag_bit(
                        BFTMsgFlag::ReceivedProposalPart,
                    )
                },
                StreamContent::Data(part) => if !old(self).in_round_window(*part) || !ed25519_verifies(
                    part.proposer@,
                    part.signature@,
                    blake3_of(
                        proposal_signing_message(
                            part.height@,
                            part.round.spec_as_i64(),
                            part.data_bytes@,
                        ),
                    ),
                ) {
                    &&& res is Refused
                    &&& final(self).err_flags == old(self).err_flags | flag_bit(
                        BFTMsgFlag::ReceivedProposalPart,
                    )
                } else {
                    &&& final(self).err_flags == old(self).err_flags
                    &&& match parse_bft_block(part.data_bytes@) {
                        Ok((bv, _)) => res matches ProposalPartDecision::Block(b) && b@ == bv,
                        Err(_) => res is Undecodable,
                    }
                },
            },
    {
        let bit = msg_flag_bit(BFTMsgFlag::ReceivedProposalPart);
        self.msg_flags = self.msg_flags | bit;
        let part = match content {
            StreamContent::Data(part) => part,
            StreamContent::Fin => {
                self.err_flags = self.err_flags | bit;
                return ProposalPartDecision::Refused;
            },
        };
        if !self.proposal_part_in_window(part) {
            self.err_flags = self.err_flags | bit;
            return ProposalPartDecision::Refused;
        }
        if !proposal_signature_valid(provider, part) {
            self.err_flags = self.err_flags | bit;
            return ProposalPartDecision::Refused;
        }
        let bytes = part.data_bytes.as_slice();
        assert(bytes@.skip(0) =~= bytes@);
        match BftBlock::zcash_deserialize(bytes, 0) {
            Ok((block, _)) => ProposalPartDecision::Block(block),
            Err(_) => ProposalPartDecision::Undecodable,
        }
    }

    /// The engine decided at the driver's height and round.  The fat
    /// pointer is built from the certificate and its signatures are checked
    /// as a batch; the proposal kept for the round must be the value the
    /// certificate names and decode as a BFT block.  Then that block waits,
    /// with the fat pointer, to be pushed to the node, and the driver moves
    /// to round 0 of the next height with no proposals kept.  When a check
    /// fails the error flag is set and nothing else changes.
    pub fn on_decided(&mut self, certificate: &MalCommitCertificate) -> (res: Result<
        (),
        DecidedError,
    >)
        requires
            old(self).wf(),
            certificate.height@ == old(self).running.height,
            certificate.round == MalRound::Number(old(self).running.round),
            slot_at(old(self).slots(), old(self).running.round as int) is Some,
            old(self).pending_block is None,
            old(self).running.height < u64::MAX,
        ensures
            final(self).wf(),
            final(self).msg_flags == old(self).msg_flags | flag_bit(BFTMsgFlag::Decided),
            final(self).running.should_terminate == old(self).running.should_terminate,
            res is Ok ==> {
                &&& blake3_of(old(self).kept_value()) == certificate.value_id.0.0@
                &&& parse_bft_block(old(self).kept_value()) matches Ok((bv, _))
                    && final(self).pending_block matches Some((b, fp)) && b@ == bv
                    && is_certificate_fat_pointer(fp, *certificate)
                &&& final(self).running.height == old(self).running.height + 1
                &&& final(self).running.round == 0
                &&& final(self).slots().len() == 0
                &&& final(self).err_flags == old(self).err_flags
            },
            res is Err ==> {
                &&& final(self).running == old(self).running
                &&& final(self).slots() == old(self).slots()
                &&& final(self).pending_block == old(self).pending_block
                &&& final(self).err_flags == old(self).err_flags | flag_bit(BFTMsgFlag::Decided)
            },
            res == Err::<(), _>(DecidedError::SignaturesRejected) ==> !certificate_signatures_verify(
                *certificate,
            ),
            res == Err::<(), _>(DecidedError::ValueIdMismatch) ==> blake3_of(old(self).kept_value())
                != certificate.value_id.0.0@,
            res == Err::<(), _>(DecidedError::UndecodableValue) ==> (blake3_of(
                old(self).kept_value(),
            ) == certificate.value_id.0.0@ && parse_bft_block(old(self).kept_value()) is Err),
            certificate_has_noncanonical_signature(*certificate) ==> res == Err::<(), _>(
                DecidedError::SignaturesRejected,
            ),
            certificate_signatures_verify(*certificate) ==> (res is Ok <==> (blake3_of(
                old(self).kept_value(),
            ) == certificate.value_id.0.0@ && parse_bft_block(old(self).kept_value()) is Ok)),
    {
        let bit = msg_flag_bit(BFTMsgFlag::Decided);
        self.msg_flags = self.msg_flags | bit;
        let fat_pointer = FatPointerToBftBlock2::from_certificate(certificate);
        let valid = fat_pointer.validate_signatures();
        proof {
            if certificate_signatures_verify(*certificate) {
                assert forall|i: int| 0 <= i < fat_pointer.signatures@.len() implies ed25519_verifies(
                    (#[trigger] fat_pointer.signatures@[i]).public_key@,
                    fat_pointer.signatures@[i].vote_signature@,
                    crate::mal_system::signed_vote_message(
                        fat_pointer.signatures@[i].public_key@,
                        fat_pointer@.0,
                    ),
                ) by {
                    assert(certificate.commit_signatures@[i].address.0
                        == fat_pointer.signatures@[i].public_key);
                }
            }
            if certificate_has_noncanonical_signature(*certificate) {
                let k = choose|k: int|
                    0 <= k < certificate.commit_signatures@.len() && !ed25519_s_canonical(
                        (#[trigger] certificate.commit_signatures@[k]).signature@,
                    );
                assert(fat_pointer.signatures@[k].vote_signature == certificate.commit_signatures@[k].signature);
                assert(!ed25519_s_canonical(fat_pointer.signatures@[k].vote_signature@));
            }
        }
        if !valid {
            self.err_flags = self.err_flags | bit;
            return Err(DecidedError::SignaturesRejected);
        }
        let r = self.running.round;
        let kept = match self.proposal_at(r) {
            Some(p) => p,
            None => {
                assert(false);
                self.err_flags = self.err_flags | bit;
                return Err(DecidedError::UndecodableValue);
            },
        };
        let id = kept.value.id();
        let id_bytes = id.0.0;
        let want = certificate.value_id.0.0;
        if !bytes32_eq(&id_bytes, &want) {
            proof {
                if id_bytes@ == want@ {
                    assert forall|b: int| 0 <= b < 32 implies id_bytes[b] == want[b] by {
                        assert(id_bytes@[b] == want@[b]);
                    }
                    assert(id_bytes =~= want);
                }
            }
            self.err_flags = self.err_flags | bit;
            return Err(DecidedError::ValueIdMismatch);
        }
        let bytes = kept.value.value_bytes.as_slice();
        assert(bytes@.skip(0) =~= bytes@);
        match BftBlock::zcash_deserialize(bytes, 0) {
            Ok((block, _)) => {
                self.commit_decision(certificate, block, fat_pointer);
                Ok(())
            },
            Err(_) => {
                self.err_flags = self.err_flags | bit;
                Err(DecidedError::UndecodableValue)
            },
        }
    }

    /// The node accepted the pending block: it no longer waits.
    pub fn pending_block_accepted(&mut self)
        ensures
            final(self).pending_block is None,
            final(self).running == old(self).running,
            final(self).slots() == old(self).slots(),
            final(self).msg_flags == old(self).msg_flags,
            final(self).err_flags == old(self).err_flags,
            old(self).wf() ==> final(self).wf(),
    {
        self.pending_block = None;
    }
}

/// The extension the driver adds to its votes: none.
pub fn extend_vote() -> (res: Vec<u8>)
    ensures
        res@.len() == 0,
{
    Vec::new()
}

/// Vote extensions are accepted only when empty.
pub fn verify_vote_extension(extension: &[u8]) -> (res: Result<(), MalVoteExtensionError>)
    ensures
        res is Ok <==> extension@.len() == 0,
{
    if extension.len() == 0 {
        Ok(())
    } else {
        Err(MalVoteExtensionError::InvalidVoteExtension)
    }
}

/// The streamed form of a proposal made by this node: signed with its key
/// over the proposal's height, round and value bytes; no proof-of-lock round.
pub fn stream_proposal(
    proposal: &MalLocallyProposedValue,
    my_public_key: [u8; 32],
    provider: &MalEd25519Provider,
) -> (res: MalStreamedProposal)
    ensures
        res.height == proposal.height,
        res.round == proposal.round,
        res.pol_round == MalRound::Nil,
        res.proposer == my_public_key,
        res.data_bytes@ == proposal.value.value_bytes@,
        res.signature@ == ed25519_signature_of(
            provider.seed(),
            blake3_of(
                proposal_signing_message(
                    proposal.height@,
                    proposal.round.spec_as_i64(),
                    proposal.value.value_bytes@,
                ),
            ),
        ),
{
    let hash = proposal_signing_hash(
        proposal.height,
        proposal.round,
        proposal.value.value_bytes.as_slice(),
    );
    let signature = provider.sign(&hash);
    let data_bytes = copy_value(&proposal.value).value_bytes;
    MalStreamedProposal {
        height: proposal.height,
        round: proposal.round,
        pol_round: MalRound::Nil,
        proposer: my_public_key,
        data_bytes,
        signature,
    }
}

/// Whether a streamed proposal carries its proposer's signature over its
/// height, round and bytes.
pub fn proposal_signature_valid(provider: &MalEd25519Provider, part: &MalStreamedProposal) -> (res:
    bool)
    ensures
        res == ed25519_verifies(
            part.proposer@,
            part.signature@,
            blake3_of(
                proposal_signing_message(part.height@, part.round.spec_as_i64(), part.data_bytes@),
            ),
        ),
{
    let hash = proposal_signing_hash(part.height, part.round, part.data_bytes.as_slice());
    provider.verify(&hash, &part.signature, &part.proposer)
}

/// The identity of a proposal's stream: the height and the round as
/// big-endian integers.
pub open spec fn stream_id_bytes(height: u64, round: u32) -> Seq<u8> {
    spec_u64_to_le_bytes(height).reverse() + spec_u32_to_le_bytes(round).reverse()
}

/// Law: a proposal part is in the driver's window exactly when it is for
/// the driver's height and for the driver's round or the one after; a part
/// with no round is never in it.
pub proof fn law_proposal_part_window(d: MalachiteDriver, part: MalStreamedProposal)
    ensures
        d.in_round_window(part) <==> (part.height@ == d.running.height && match part.round {
            MalRound::Number(r) => r == d.running.round || r == d.running.round + 1,
            MalRound::Nil => false,
        }),
{
}

/// Law: a stream's identity is 12 bytes: the height as a big-endian `u64`,
/// then the round as a big-endian `u32`.
pub proof fn law_stream_id_layout(height: u64, round: u32)
    ensures
        stream_id_bytes(height, round).len() == 12,
        spec_u64_from_le_bytes(stream_id_bytes(height, round).subrange(0, 8).reverse()) == height,
        spec_u32_from_le_bytes(stream_id_bytes(height, round).subrange(8, 12).reverse()) == round,
{
    lemma_auto_spec_u64_to_from_le_bytes();
    lemma_auto_spec_u32_to_from_le_bytes();
    let s = stream_id_bytes(height, round);
    let a = spec_u64_to_le_bytes(height);
    let b = spec_u32_to_le_bytes(round);
    assert(s.subrange(0, 8) =~= a.reverse());
    assert(s.subrange(8, 12) =~= b.reverse());
    assert(a.reverse().reverse() =~= a);
    assert(b.reverse().reverse() =~= b);
}

/// Appends `src` in reverse order.
fn append_reversed(out: &mut Vec<u8>, src: &Vec<u8>)
    ensures
        final(out)@ == old(out)@ + src@.reverse(),
{
    let ghost start = out@;
    let mut i: usize = src.len();
    while i > 0
        invariant
            i <= src@.len(),
            out@ == start + src@.subrange(i as int, src@.len() as int).reverse(),
        decreases i,
    {
        i = i - 1;
        out.push(src[i]);
        assert(src@.subrange(i as int, src@.len() as int).reverse() =~= src@.subrange(
            i + 1,
            src@.len() as int,
        ).reverse().push(src@[i as int]));
    }
    assert(src@.subrange(0, src@.len() as int) =~= src@);
}

/// The identity of the stream of the proposal for `height` and `round`.
pub fn stream_id(height: MalHeight, round: u32) -> (res: Vec<u8>)
    ensures
        res@ == stream_id_bytes(height@, round),
{
    let mut bytes: Vec<u8> = Vec::new();
    append_reversed(&mut bytes, &u64_to_le_bytes(height.as_u64()));
    append_reversed(&mut bytes, &u32_to_le_bytes(round));
    bytes
}

/// Keeping a proposal for a round and asking for that round again gives
/// back the very same proposal, and leaves every other round as it was.
pub proof fn law_replay_gives_back_kept_proposal(
    slots: Seq<Option<ProposedValueView>>,
    r: int,
    p: ProposedValueView,
    q: int,
)
    requires
        0 <= r,
    ensures
        slot_at(slots_with(slots, r, p), r) == Some(p),
        q != r ==> slot_at(slots_with(slots, r, p), q) == slot_at(slots, q),
{
}

} // verus!
