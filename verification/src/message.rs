//! Wire messages: proposals, votes and certificates as they travel
//! between replicas, and the tagged sum that carries them.

use vstd::prelude::*;

use crate::certificate::{
    DACertificate, DACertificateView, QuorumCertificate, QuorumCertificateView,
    ViewSyncCertificate, ViewSyncCertificateView,
};
use crate::commitment::Commitment;
use crate::data::{Block, Transaction};
use crate::election::{spec_vote_data_commit, spec_vote_data_inner, StaticVoteToken, VoteData};
use crate::signature::{EncodedPublicKey, EncodedSignature};
use crate::wire::{push_bytes, push_u64_be, spec_u64_to_be_bytes};

verus! {

/// Data a view-sync vote commits to: the relay's encoded key and the
/// round to synchronise on.
pub struct ViewSyncData {
    /// The relay the votes are addressed through.
    pub relay: EncodedPublicKey,
    /// The round the network synchronises on.
    pub round: u64,
}

/// The mathematical value of a [`ViewSyncData`].
pub struct ViewSyncDataView {
    /// The relay the votes are addressed through.
    pub relay: Seq<u8>,
    /// The round the network synchronises on.
    pub round: u64,
}

impl View for ViewSyncData {
    type V = ViewSyncDataView;

    open spec fn view(&self) -> ViewSyncDataView {
        ViewSyncDataView { relay: self.relay@, round: self.round }
    }
}

/// The bytes of the model tag `VSDATA`.
pub open spec fn spec_tag_view_sync_data() -> Seq<u8> {
    seq![86u8, 83, 68, 65, 84, 65]
}

/// The commitment of view-sync data: the tag, the relay key
/// length-prefixed, the round.
pub open spec fn spec_view_sync_data_commit(d: ViewSyncDataView) -> Seq<u8> {
    spec_tag_view_sync_data() + spec_u64_to_be_bytes(d.relay.len() as u64) + d.relay
        + spec_u64_to_be_bytes(d.round)
}

impl ViewSyncData {
    /// The content commitment of this data.
    pub fn commit(&self) -> (r: Commitment)
        ensures
            r@ == spec_view_sync_data_commit(self@),
    {
        let mut bytes: Vec<u8> = vec![86u8, 83, 68, 65, 84, 65];
        assert(bytes@ =~= spec_tag_view_sync_data());
        push_u64_be(&mut bytes, self.relay.bytes.len() as u64);
        push_bytes(&mut bytes, &self.relay.bytes);
        push_u64_be(&mut bytes, self.round);
        assert(bytes@ =~= spec_view_sync_data_commit(self@));
        Commitment { bytes }
    }
}

/// A block proposed by a DA leader for availability attestation.
pub struct DAProposal {
    /// The proposed block.
    pub deltas: Block,
    /// The view this proposal is for.
    pub view_number: u64,
}

/// The mathematical value of a [`DAProposal`].
pub struct DAProposalView {
    /// The proposed block.
    pub deltas: Seq<Seq<u8>>,
    /// The view this proposal is for.
    pub view_number: u64,
}

impl View for DAProposal {
    type V = DAProposalView;

    open spec fn view(&self) -> DAProposalView {
        DAProposalView { deltas: self.deltas@, view_number: self.view_number }
    }
}

impl Clone for DAProposal {
    fn clone(&self) -> (r: Self)
        ensures
            r@ == self@,
    {
        DAProposal { deltas: self.deltas.clone(), view_number: self.view_number }
    }
}

/// A quorum leader's proposal: the block and state commitments, chained
/// to the log by the justifying certificate and the DA certificate.
pub struct CommitmentProposal {
    /// Commitment to the proposed block.
    pub block_commitment: Commitment,
    /// The view this proposal is for.
    pub view_number: u64,
    /// The certificate justifying the parent leaf.
    pub justify_qc: QuorumCertificate,
    /// The DA certificate for the proposed block.
    pub dac: DACertificate,
    /// Commitment to the state after appending the block.
    pub state_commitment: Commitment,
    /// The proposer's encoded key.
    pub proposer_id: EncodedPublicKey,
}

/// The mathematical value of a [`CommitmentProposal`].
pub struct CommitmentProposalView {
    /// Commitment to the proposed block.
    pub block_commitment: Seq<u8>,
    /// The view this proposal is for.
    pub view_number: u64,
    /// The certificate justifying the parent leaf.
    pub justify_qc: QuorumCertificateView,
    /// The DA certificate for the proposed block.
    pub dac: DACertificateView,
    /// Commitment to the state after appending the block.
    pub state_commitment: Seq<u8>,
    /// The proposer's encoded key.
    pub proposer_id: Seq<u8>,
}

impl View for CommitmentProposal {
    type V = CommitmentProposalView;

    open spec fn view(&self) -> CommitmentProposalView {
        CommitmentProposalView {
            block_commitment: self.block_commitment@,
            view_number: self.view_number,
            justify_qc: self.justify_qc@,
            dac: self.dac@,
            state_commitment: self.state_commitment@,
            proposer_id: self.proposer_id@,
        }
    }
}

impl Clone for CommitmentProposal {
    fn clone(&self) -> (r: Self)
        ensures
            r@ == self@,
    {
        CommitmentProposal {
            block_commitment: self.block_commitment.clone(),
            view_number: self.view_number,
            justify_qc: self.justify_qc.clone(),
            dac: self.dac.clone(),
            state_commitment: self.state_commitment.clone(),
            proposer_id: self.proposer_id.clone(),
        }
    }
}

/// A vote to attest a block's availability.
pub struct DAVote {
    /// The signer's encoded key and signature.
    pub signature: (EncodedPublicKey, EncodedSignature),
    /// Commitment to the block voted on.
    pub block_commitment: Commitment,
    /// The view the vote belongs to.
    pub current_view: u64,
    /// The voter's token.
    pub vote_token: StaticVoteToken,
    /// What was voted on, tagged DA.
    pub vote_data: VoteData,
}

/// The mathematical value of a [`DAVote`].
pub struct DAVoteView {
    /// The signer's encoded key.
    pub key: Seq<u8>,
    /// The signer's signature.
    pub signature: Seq<u8>,
    /// Commitment to the block voted on.
    pub block_commitment: Seq<u8>,
    /// The view the vote belongs to.
    pub current_view: u64,
    /// The voter's token.
    pub vote_token: StaticVoteToken,
    /// The tagged commitment the signature covers.
    pub vote_commit: Seq<u8>,
    /// The inner commitment of the vote data.
    pub vote_inner: Seq<u8>,
}

impl View for DAVote {
    type V = DAVoteView;

    open spec fn view(&self) -> DAVoteView {
        DAVoteView {
            key: self.signature.0@,
            signature: self.signature.1@,
            block_commitment: self.block_commitment@,
            current_view: self.current_view,
            vote_token: self.vote_token,
            vote_commit: spec_vote_data_commit(self.vote_data),
            vote_inner: spec_vote_data_inner(self.vote_data),
        }
    }
}

impl Clone for DAVote {
    fn clone(&self) -> (r: Self)
        ensures
            r@ == self@,
    {
        DAVote {
            signature: (self.signature.0.clone(), self.signature.1.clone()),
            block_commitment: self.block_commitment.clone(),
            current_view: self.current_view,
            vote_token: self.vote_token,
            vote_data: self.vote_data.clone(),
        }
    }
}

/// A positive or negative vote on a proposed leaf.
pub struct YesOrNoVote {
    /// Commitment to the justifying certificate of the proposal.
    pub justify_qc_commitment: Commitment,
    /// The signer's encoded key and signature.
    pub signature: (EncodedPublicKey, EncodedSignature),
    /// Commitment to the leaf voted on.
    pub leaf_commitment: Commitment,
    /// The view the vote belongs to.
    pub current_view: u64,
    /// The voter's token.
    pub vote_token: StaticVoteToken,
    /// What was voted on, tagged Yes or No.
    pub vote_data: VoteData,
}

/// The mathematical value of a [`YesOrNoVote`].
pub struct YesOrNoVoteView {
    /// Commitment to the justifying certificate of the proposal.
    pub justify_qc_commitment: Seq<u8>,
    /// The signer's encoded key.
    pub key: Seq<u8>,
    /// The signer's signature.
    pub signature: Seq<u8>,
    /// Commitment to the leaf voted on.
    pub leaf_commitment: Seq<u8>,
    /// The view the vote belongs to.
    pub current_view: u64,
    /// The voter's token.
    pub vote_token: StaticVoteToken,
    /// The tagged commitment the signature covers.
    pub vote_commit: Seq<u8>,
}

impl View for YesOrNoVote {
    type V = YesOrNoVoteView;

    open spec fn view(&self) -> YesOrNoVoteView {
        YesOrNoVoteView {
            justify_qc_commitment: self.justify_qc_commitment@,
            key: self.signature.0@,
            signature: self.signature.1@,
            leaf_commitment: self.leaf_commitment@,
            current_view: self.current_view,
            vote_token: self.vote_token,
            vote_commit: spec_vote_data_commit(self.vote_data),
        }
    }
}

impl Clone for YesOrNoVote {
    fn clone(&self) -> (r: Self)
        ensures
            r@ == self@,
    {
        YesOrNoVote {
            justify_qc_commitment: self.justify_qc_commitment.clone(),
            signature: (self.signature.0.clone(), self.signature.1.clone()),
            leaf_commitment: self.leaf_commitment.clone(),
            current_view: self.current_view,
            vote_token: self.vote_token,
            vote_data: self.vote_data.clone(),
        }
    }
}

/// A vote that a view timed out, carrying the best justifying
/// certificate the voter has seen.
pub struct TimeoutVote {
    /// The highest quorum certificate the voter knows.
    pub justify_qc: QuorumCertificate,
    /// The signer's encoded key and signature.
    pub signature: (EncodedPublicKey, EncodedSignature),
    /// The view that timed out.
    pub current_view: u64,
    /// The voter's token.
    pub vote_token: StaticVoteToken,
    /// What was voted on, tagged Timeout.
    pub vote_data: VoteData,
}

/// The mathematical value of a [`TimeoutVote`].
pub struct TimeoutVoteView {
    /// The highest quorum certificate the voter knows.
    pub justify_qc: QuorumCertificateView,
    /// The signer's encoded key.
    pub key: Seq<u8>,
    /// The signer's signature.
    pub signature: Seq<u8>,
    /// The view that timed out.
    pub current_view: u64,
    /// The voter's token.
    pub vote_token: StaticVoteToken,
    /// The tagged commitment the signature covers.
    pub vote_commit: Seq<u8>,
}

impl View for TimeoutVote {
    type V = TimeoutVoteView;

    open spec fn view(&self) -> TimeoutVoteView {
        TimeoutVoteView {
            justify_qc: self.justify_qc@,
            key: self.signature.0@,
            signature: self.signature.1@,
            current_view: self.current_view,
            vote_token: self.vote_token,
            vote_commit: spec_vote_data_commit(self.vote_data),
        }
    }
}

impl Clone for TimeoutVote {
    fn clone(&self) -> (r: Self)
        ensures
            r@ == self@,
    {
        TimeoutVote {
            justify_qc: self.justify_qc.clone(),
            signature: (self.signature.0.clone(), self.signature.1.clone()),
            current_view: self.current_view,
            vote_token: self.vote_token,
            vote_data: self.vote_data.clone(),
        }
    }
}

/// A quorum participant's vote.
pub enum QuorumVote {
    /// Accept the proposed leaf.
    Yes(YesOrNoVote),
    /// Reject the proposed leaf.
    No(YesOrNoVote),
    /// The view timed out.
    Timeout(TimeoutVote),
}

/// The mathematical value of a [`QuorumVote`].
pub enum QuorumVoteView {
    /// Accept the proposed leaf.
    Yes(YesOrNoVoteView),
    /// Reject the proposed leaf.
    No(YesOrNoVoteView),
    /// The view timed out.
    Timeout(TimeoutVoteView),
}

impl View for QuorumVote {
    type V = QuorumVoteView;

    open spec fn view(&self) -> QuorumVoteView {
        match self {
            QuorumVote::Yes(v) => QuorumVoteView::Yes(v@),
            QuorumVote::No(v) => QuorumVoteView::No(v@),
            QuorumVote::Timeout(v) => QuorumVoteView::Timeout(v@),
        }
    }
}

impl Clone for QuorumVote {
    fn clone(&self) -> (r: Self)
        ensures
            r@ == self@,
    {
        match self {
            QuorumVote::Yes(v) => QuorumVote::Yes(v.clone()),
            QuorumVote::No(v) => QuorumVote::No(v.clone()),
            QuorumVote::Timeout(v) => QuorumVote::Timeout(v.clone()),
        }
    }
}

impl QuorumVote {
    /// The view this vote belongs to.
    pub fn current_view(&self) -> (r: u64)
        ensures
            r == spec_quorum_vote_view_number(self@),
    {
        match self {
            QuorumVote::Yes(v) => v.current_view,
            QuorumVote::No(v) => v.current_view,
            QuorumVote::Timeout(v) => v.current_view,
        }
    }

    /// The voter's encoded key.
    pub fn signature_key(&self) -> (r: EncodedPublicKey)
        ensures
            r@ == spec_quorum_vote_key(self@),
    {
        match self {
            QuorumVote::Yes(v) => v.signature.0.clone(),
            QuorumVote::No(v) => v.signature.0.clone(),
            QuorumVote::Timeout(v) => v.signature.0.clone(),
        }
    }
}

/// The view a quorum vote belongs to.
pub open spec fn spec_quorum_vote_view_number(v: QuorumVoteView) -> u64 {
    match v {
        QuorumVoteView::Yes(y) => y.current_view,
        QuorumVoteView::No(n) => n.current_view,
        QuorumVoteView::Timeout(t) => t.current_view,
    }
}

/// The encoded key of a quorum vote's signer.
pub open spec fn spec_quorum_vote_key(v: QuorumVoteView) -> Seq<u8> {
    match v {
        QuorumVoteView::Yes(y) => y.key,
        QuorumVoteView::No(n) => n.key,
        QuorumVoteView::Timeout(t) => t.key,
    }
}

/// One phase's view-sync vote.
pub struct ViewSyncVoteInternal {
    /// The relay's encoded key.
    pub relay_pub_key: EncodedPublicKey,
    /// The relay index.
    pub relay: u64,
    /// The round to synchronise on.
    pub round: u64,
    /// The signer's encoded key and signature.
    pub signature: (EncodedPublicKey, EncodedSignature),
    /// The voter's token.
    pub vote_token: StaticVoteToken,
    /// What was voted on, tagged by the phase.
    pub vote_data: VoteData,
}

/// The mathematical value of a [`ViewSyncVoteInternal`].
pub struct ViewSyncVoteInternalView {
    /// The relay's encoded key.
    pub relay_pub_key: Seq<u8>,
    /// The relay index.
    pub relay: u64,
    /// The round to synchronise on.
    pub round: u64,
    /// The signer's encoded key.
    pub key: Seq<u8>,
    /// The signer's signature.
    pub signature: Seq<u8>,
    /// The voter's token.
    pub vote_token: StaticVoteToken,
    /// The tagged commitment the signature covers.
    pub vote_commit: Seq<u8>,
}

impl View for ViewSyncVoteInternal {
    type V = ViewSyncVoteInternalView;

    open spec fn view(&self) -> ViewSyncVoteInternalView {
        ViewSyncVoteInternalView {
            relay_pub_key: self.relay_pub_key@,
            relay: self.relay,
            round: self.round,
            key: self.signature.0@,
            signature: self.signature.1@,
            vote_token: self.vote_token,
            vote_commit: spec_vote_data_commit(self.vote_data),
        }
    }
}

impl Clone for ViewSyncVoteInternal {
    fn clone(&self) -> (r: Self)
        ensures
            r@ == self@,
    {
        ViewSyncVoteInternal {
            relay_pub_key: self.relay_pub_key.clone(),
            relay: self.relay,
            round: self.round,
            signature: (self.signature.0.clone(), self.signature.1.clone()),
            vote_token: self.vote_token,
            vote_data: self.vote_data.clone(),
        }
    }
}

/// A view-sync vote, one variant per phase.
pub enum ViewSyncVote {
    /// Pre-commit phase.
    PreCommit(ViewSyncVoteInternal),
    /// Commit phase.
    Commit(ViewSyncVoteInternal),
    /// Finalize phase.
    Finalize(ViewSyncVoteInternal),
}

/// The mathematical value of a [`ViewSyncVote`].
pub enum ViewSyncVoteView {
    /// Pre-commit phase.
    PreCommit(ViewSyncVoteInternalView),
    /// Commit phase.
    Commit(ViewSyncVoteInternalView),
    /// Finalize phase.
    Finalize(ViewSyncVoteInternalView),
}

impl View for ViewSyncVote {
    type V = ViewSyncVoteView;

    open spec fn view(&self) -> ViewSyncVoteView {
        match self {
            ViewSyncVote::PreCommit(v) => ViewSyncVoteView::PreCommit(v@),
            ViewSyncVote::Commit(v) => ViewSyncVoteView::Commit(v@),
            ViewSyncVote::Finalize(v) => ViewSyncVoteView::Finalize(v@),
        }
    }
}

impl Clone for ViewSyncVote {
    fn clone(&self) -> (r: Self)
        ensures
            r@ == self@,
    {
        match self {
            ViewSyncVote::PreCommit(v) => ViewSyncVote::PreCommit(v.clone()),
            ViewSyncVote::Commit(v) => ViewSyncVote::Commit(v.clone()),
            ViewSyncVote::Finalize(v) => ViewSyncVote::Finalize(v.clone()),
        }
    }
}

/// The phase contents of a view-sync vote.
pub open spec fn spec_view_sync_vote_internal(v: ViewSyncVoteView) -> ViewSyncVoteInternalView {
    match v {
        ViewSyncVoteView::PreCommit(i) => i,
        ViewSyncVoteView::Commit(i) => i,
        ViewSyncVoteView::Finalize(i) => i,
    }
}

impl ViewSyncVote {
    /// The round this vote synchronises on.
    pub fn round(&self) -> (r: u64)
        ensures
            r == spec_view_sync_vote_internal(self@).round,
    {
        match self {
            ViewSyncVote::PreCommit(v) => v.round,
            ViewSyncVote::Commit(v) => v.round,
            ViewSyncVote::Finalize(v) => v.round,
        }
    }

    /// The relay index this vote is addressed through.
    pub fn relay(&self) -> (r: u64)
        ensures
            r == spec_view_sync_vote_internal(self@).relay,
    {
        match self {
            ViewSyncVote::PreCommit(v) => v.relay,
            ViewSyncVote::Commit(v) => v.relay,
            ViewSyncVote::Finalize(v) => v.relay,
        }
    }

    /// The voter's encoded key.
    pub fn signature_key(&self) -> (r: EncodedPublicKey)
        ensures
            r@ == spec_view_sync_vote_internal(self@).key,
    {
        match self {
            ViewSyncVote::PreCommit(v) => v.signature.0.clone(),
            ViewSyncVote::Commit(v) => v.signature.0.clone(),
            ViewSyncVote::Finalize(v) => v.signature.0.clone(),
        }
    }
}

/// Messages every replica exchanges.
pub enum GeneralConsensusMessage {
    /// A leader's commitment proposal, with the leader's signature over
    /// the proposed leaf's commitment.
    Proposal(CommitmentProposal, EncodedSignature),
    /// A quorum participant's vote.
    Vote(QuorumVote),
    /// A view-sync vote.
    ViewSyncVote(ViewSyncVote),
    /// A view-sync certificate, with the relay's signature over its
    /// commitment.
    ViewSyncCertificate(ViewSyncCertificate, EncodedSignature),
}

/// The mathematical value of a [`GeneralConsensusMessage`].
pub enum GeneralConsensusMessageView {
    /// A leader's commitment proposal with its signature.
    Proposal(CommitmentProposalView, Seq<u8>),
    /// A quorum participant's vote.
    Vote(QuorumVoteView),
    /// A view-sync vote.
    ViewSyncVote(ViewSyncVoteView),
    /// A view-sync certificate with its signature.
    ViewSyncCertificate(ViewSyncCertificateView, Seq<u8>),
}

impl View for GeneralConsensusMessage {
    type V = GeneralConsensusMessageView;

    open spec fn view(&self) -> GeneralConsensusMessageView {
        match self {
            GeneralConsensusMessage::Proposal(p, s) => GeneralConsensusMessageView::Proposal(
                p@,
                s@,
            ),
            GeneralConsensusMessage::Vote(v) => GeneralConsensusMessageView::Vote(v@),
            GeneralConsensusMessage::ViewSyncVote(v) => GeneralConsensusMessageView::ViewSyncVote(
                v@,
            ),
            GeneralConsensusMessage::ViewSyncCertificate(c, s) => GeneralConsensusMessageView::ViewSyncCertificate(
                c@,
                s@,
            ),
        }
    }
}

/// Messages only the DA committee exchanges.
pub enum CommitteeConsensusMessage {
    /// A DA leader's block proposal, with the leader's signature over
    /// the block's commitment.
    DAProposal(DAProposal, EncodedSignature),
    /// A committee member's availability vote.
    DAVote(DAVote),
    /// An assembled DA certificate.
    DACertificate(DACertificate),
}

/// The mathematical value of a [`CommitteeConsensusMessage`].
pub enum CommitteeConsensusMessageView {
    /// A DA leader's block proposal with its signature.
    DAProposal(DAProposalView, Seq<u8>),
    /// A committee member's availability vote.
    DAVote(DAVoteView),
    /// An assembled DA certificate.
    DACertificate(DACertificateView),
}

impl View for CommitteeConsensusMessage {
    type V = CommitteeConsensusMessageView;

    open spec fn view(&self) -> CommitteeConsensusMessageView {
        match self {
            CommitteeConsensusMessage::DAProposal(p, s) => CommitteeConsensusMessageView::DAProposal(
                p@,
                s@,
            ),
            CommitteeConsensusMessage::DAVote(v) => CommitteeConsensusMessageView::DAVote(v@),
            CommitteeConsensusMessage::DACertificate(c) => CommitteeConsensusMessageView::DACertificate(
                c@,
            ),
        }
    }
}

/// Messages that submit data to the log.
pub enum DataMessage {
    /// Put a transaction into the mempool for a view.
    SubmitTransaction(Transaction, u64),
}

/// The mathematical value of a [`DataMessage`].
pub enum DataMessageView {
    /// Put a transaction into the mempool for a view.
    SubmitTransaction(Seq<u8>, u64),
}

impl View for DataMessage {
    type V = DataMessageView;

    open spec fn view(&self) -> DataMessageView {
        match self {
            DataMessage::SubmitTransaction(t, v) => DataMessageView::SubmitTransaction(t@, *v),
        }
    }
}

/// Everything that travels on the wire, as one tagged sum.
pub enum ConsensusMessage {
    /// A message every replica exchanges.
    General(GeneralConsensusMessage),
    /// A message of the DA committee.
    Committee(CommitteeConsensusMessage),
    /// A data submission.
    Data(DataMessage),
}

/// The mathematical value of a [`ConsensusMessage`].
pub enum ConsensusMessageView {
    /// A message every replica exchanges.
    General(GeneralConsensusMessageView),
    /// A message of the DA committee.
    Committee(CommitteeConsensusMessageView),
    /// A data submission.
    Data(DataMessageView),
}

impl View for ConsensusMessage {
    type V = ConsensusMessageView;

    open spec fn view(&self) -> ConsensusMessageView {
        match self {
            ConsensusMessage::General(m) => ConsensusMessageView::General(m@),
            ConsensusMessage::Committee(m) => ConsensusMessageView::Committee(m@),
            ConsensusMessage::Data(m) => ConsensusMessageView::Data(m@),
        }
    }
}

/// The view number a message belongs to.
pub open spec fn spec_message_view_number(m: ConsensusMessageView) -> u64 {
    match m {
        ConsensusMessageView::General(g) => match g {
            GeneralConsensusMessageView::Proposal(p, _) => p.view_number,
            GeneralConsensusMessageView::Vote(v) => spec_quorum_vote_view_number(v),
            GeneralConsensusMessageView::ViewSyncVote(v) => spec_view_sync_vote_internal(v).round,
            GeneralConsensusMessageView::ViewSyncCertificate(c, _) =>
                crate::certificate::spec_view_sync_cert_internal(c).round,
        },
        ConsensusMessageView::Committee(c) => match c {
            CommitteeConsensusMessageView::DAProposal(p, _) => p.view_number,
            CommitteeConsensusMessageView::DAVote(v) => v.current_view,
            CommitteeConsensusMessageView::DACertificate(cert) => cert.view_number,
        },
        ConsensusMessageView::Data(d) => match d {
            DataMessageView::SubmitTransaction(_, v) => v,
        },
    }
}

impl ConsensusMessage {
    /// The view number this message belongs to.
    pub fn view_number(&self) -> (r: u64)
        ensures
            r == spec_message_view_number(self@),
    {
        match self {
            ConsensusMessage::General(g) => match g {
                GeneralConsensusMessage::Proposal(p, _) => p.view_number,
                GeneralConsensusMessage::Vote(v) => v.current_view(),
                GeneralConsensusMessage::ViewSyncVote(v) => v.round(),
                GeneralConsensusMessage::ViewSyncCertificate(c, _) => c.internal().round,
            },
            ConsensusMessage::Committee(c) => match c {
                CommitteeConsensusMessage::DAProposal(p, _) => p.view_number,
                CommitteeConsensusMessage::DAVote(v) => v.current_view,
                CommitteeConsensusMessage::DACertificate(cert) => cert.view_number,
            },
            ConsensusMessage::Data(d) => match d {
                DataMessage::SubmitTransaction(_, v) => *v,
            },
        }
    }
}

} // verus!
